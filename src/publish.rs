//! Outgoing transfers: publishers of messages, anonymous publishers, requesters of services,
//! and responses to requests.
use vstd::prelude::*;

use crate::frame::OutOfMemoryError;
use crate::header::{MessageHeader, ServiceHeader, TransferHeader, TransferKindHeader};
use crate::ids::{NodeId, Priority, ServiceId, SubjectId, TransferId};
use crate::time::{Duration, Instant};
use crate::tx::{pushed, Transmitter};

verus! {

/// The largest payload any transfer can have, so that the frame layout fits in `usize`
pub const PAYLOAD_MAX: usize = usize::MAX - 64;

/// The transfer ID that follows `t`, wrapping from 31 to 0
pub open spec fn next_transfer_id(t: u8) -> u8 {
    ((t + 1) % 32) as u8
}

/// The transfer ID after `k` increments from `start`
pub open spec fn transfer_id_after(start: u8, k: nat) -> u8
    decreases k,
{
    if k == 0 {
        start
    } else {
        next_transfer_id(transfer_id_after(start, (k - 1) as nat))
    }
}

/// Successive transfers count their transfer IDs up modulo 32: after `k` transfers from a
/// counter that started at `start`, the next transfer ID is `(start + k) % 32`.
pub proof fn lemma_transfer_id_sequence(start: u8, k: nat)
    requires
        start < 32,
    ensures
        transfer_id_after(start, k) == (start + k) % 32,
    decreases k,
{
    if k > 0 {
        lemma_transfer_id_sequence(start, (k - 1) as nat);
    }
}

/// A message header for a subject
pub open(crate) spec fn message_header(
    source: NodeId,
    priority: Priority,
    anonymous: bool,
    subject: SubjectId,
) -> TransferHeader {
    TransferHeader {
        source,
        priority,
        kind: TransferKindHeader::Message(MessageHeader { anonymous, subject }),
    }
}

/// Assembles transfers and manages transfer IDs to send messages
///
/// The subject ID is not part of this struct because it is used as a key in the map of
/// publishers.
#[derive(Debug, Clone, Copy)]
pub struct Publisher {
    /// The ID of the next transfer sent
    pub next_transfer_id: TransferId,
    /// Timeout for sending a transfer, measured from the time the payload is serialized
    pub timeout: Duration,
    /// Priority for transfers
    pub priority: Priority,
    /// ID of this node
    pub source: NodeId,
}

impl Publisher {
    /// The transfer ID of the next transfer
    pub open(crate) spec fn spec_next_transfer_id(self) -> u8 {
        self.next_transfer_id.spec_value()
    }

    /// Creates a message publisher
    ///
    /// node_id: The ID of this node
    ///
    /// priority: The priority to use for messages
    pub fn new(node_id: NodeId, timeout: Duration, priority: Priority) -> (r: Publisher)
        ensures
            r.spec_next_transfer_id() == 0,
            r.timeout == timeout,
            r.priority == priority,
            r.source == node_id,
    {
        Publisher { next_transfer_id: TransferId::default_id(), timeout, priority, source: node_id }
    }

    /// Publishes a serialized message with a deadline `timeout` after `now`
    pub fn publish(
        &mut self,
        now: Instant,
        subject: SubjectId,
        payload: &[u8],
        transmitter: &mut Transmitter,
    ) -> (r: Result<(), OutOfMemoryError>)
        requires
            payload@.len() <= PAYLOAD_MAX,
        ensures
            final(self).spec_next_transfer_id() == next_transfer_id(
                old(self).spec_next_transfer_id(),
            ),
            final(self).timeout == old(self).timeout,
            final(self).priority == old(self).priority,
            final(self).source == old(self).source,
            pushed(
                *old(transmitter),
                *final(transmitter),
                Instant { micros: now.spec_add_duration(old(self).timeout) },
                message_header(old(self).source, old(self).priority, false, subject),
                old(self).next_transfer_id,
                payload@,
                r,
            ),
    {
        let deadline = now.add_duration(self.timeout);
        self.send_payload(subject, payload, deadline, transmitter)
    }

    /// Sends a serialized message with a deadline
    pub fn send_payload(
        &mut self,
        subject: SubjectId,
        payload: &[u8],
        deadline: Instant,
        transmitter: &mut Transmitter,
    ) -> (r: Result<(), OutOfMemoryError>)
        requires
            payload@.len() <= PAYLOAD_MAX,
        ensures
            final(self).spec_next_transfer_id() == next_transfer_id(
                old(self).spec_next_transfer_id(),
            ),
            final(self).timeout == old(self).timeout,
            final(self).priority == old(self).priority,
            final(self).source == old(self).source,
            pushed(
                *old(transmitter),
                *final(transmitter),
                deadline,
                message_header(old(self).source, old(self).priority, false, subject),
                old(self).next_transfer_id,
                payload@,
                r,
            ),
    {
        let header = TransferHeader {
            source: self.source,
            priority: self.priority,
            kind: TransferKindHeader::Message(MessageHeader { anonymous: false, subject }),
        };
        let transfer_id = self.next_transfer_id;
        self.next_transfer_id = self.next_transfer_id.increment();
        transmitter.push(deadline, header, transfer_id, payload)
    }
}

/// The XOR of a seed and every byte of a payload
pub open spec fn xor_fold(seed: u8, payload: Seq<u8>) -> u8
    decreases payload.len(),
{
    if payload.len() == 0 {
        seed
    } else {
        xor_fold(seed, payload.drop_last()) ^ payload.last()
    }
}

/// The pseudo node ID of an anonymous transfer: the low 7 bits of 37 XOR every payload byte,
/// moved down to 125 if they fall on one of the two IDs reserved for diagnostic tools
pub open spec fn spec_pseudo_id(payload: Seq<u8>) -> u8 {
    let low = xor_fold(37, payload) & 0x7f;
    if low >= 126 {
        125
    } else {
        low
    }
}

/// The pseudo node ID of an anonymous transfer, as a node ID
pub open(crate) spec fn pseudo_node_id(payload: Seq<u8>) -> NodeId {
    NodeId { value: spec_pseudo_id(payload) }
}

/// Derives a node ID for an anonymous transfer from its payload
///
/// Starting from 37 XOR every payload byte, this steps down (wrapping around) until the low 7
/// bits are a node ID that is not reserved for diagnostic tools.
pub fn make_pseudo_id(payload: &[u8]) -> (r: NodeId)
    ensures
        r.spec_value() == spec_pseudo_id(payload@),
        !r.spec_is_diagnostic_reserved(),
{
    let mut id_bits: u8 = 37;
    let mut i: usize = 0;
    while i < payload.len()
        invariant
            i <= payload@.len(),
            id_bits == xor_fold(37, payload@.subrange(0, i as int)),
        decreases payload@.len() - i,
    {
        assert(payload@.subrange(0, i + 1).drop_last() == payload@.subrange(0, i as int));
        id_bits = id_bits ^ payload[i];
        i = i + 1;
    }
    assert(payload@.subrange(0, i as int) == payload@);
    let ghost start = id_bits;
    // Get a non-reserved ID, trying lower ones
    loop
        invariant
            start == xor_fold(37, payload@),
            (start & 0x7f) < 126 ==> id_bits == start,
            (start & 0x7f) >= 126 ==> 125 <= (id_bits & 0x7f) <= (start & 0x7f),
        decreases id_bits & 0x7f,
    {
        let id = NodeId::from_truncating(id_bits);
        if !id.is_diagnostic_reserved() {
            assert((start & 0x7f) >= 126 ==> (id_bits & 0x7f) == 125);
            return id;
        }
        let next = id_bits.wrapping_sub(1);
        assert((next & 0x7f) == (id_bits & 0x7f) - 1) by (bit_vector)
            requires
                (id_bits & 0x7f) >= 126,
                next == (if id_bits == 0 {
                    255u8
                } else {
                    (id_bits - 1) as u8
                }),
        ;
        id_bits = next;
    }
}

/// The pseudo node ID of an anonymous transfer depends on its payload alone and is never one
/// of the IDs reserved for diagnostic tools.
pub proof fn lemma_pseudo_id_not_reserved(a: Seq<u8>, b: Seq<u8>)
    ensures
        spec_pseudo_id(a) < 126,
        a == b ==> spec_pseudo_id(a) == spec_pseudo_id(b),
{
    let x = xor_fold(37, a);
    assert(x & 0x7f <= 127) by (bit_vector);
}

/// Errors from sending an anonymous message
#[derive(Debug, Clone, Copy, PartialEq, Eq, Structural)]
pub enum AnonymousPublishError {
    /// The payload does not fit into one frame, which anonymous transfers require
    TooLong,
    /// Memory for the frame could not be allocated
    OutOfMemory,
}

/// A transmitter that sends anonymous messages and does not require a node ID
#[derive(Debug, Clone, Copy)]
pub struct AnonymousPublisher {
    /// The priority of transfers from this transmitter
    pub priority: Priority,
    /// The subject to transmit on
    pub subject: SubjectId,
    /// The ID of the next transfer sent
    pub next_transfer_id: TransferId,
}

impl AnonymousPublisher {
    /// The transfer ID of the next transfer
    pub open(crate) spec fn spec_next_transfer_id(self) -> u8 {
        self.next_transfer_id.spec_value()
    }

    /// Creates an anonymous message publisher
    ///
    /// priority: The priority to use for messages
    ///
    /// subject: The subject ID to publish to
    pub fn new(priority: Priority, subject: SubjectId) -> (r: AnonymousPublisher)
        ensures
            r.priority == priority,
            r.subject == subject,
            r.spec_next_transfer_id() == 0,
    {
        AnonymousPublisher { priority, subject, next_transfer_id: TransferId::default_id() }
    }

    /// Sends a serialized anonymous message with a deadline
    ///
    /// A payload that does not fit into one frame with its tail byte is rejected and nothing is
    /// sent. Otherwise the message goes out with a pseudo node ID derived from the payload.
    pub fn send_payload(
        &mut self,
        payload: &[u8],
        deadline: Instant,
        transmitter: &mut Transmitter,
    ) -> (r: Result<(), AnonymousPublishError>)
        ensures
            final(self).priority == old(self).priority,
            final(self).subject == old(self).subject,
            payload@.len() + 1 > old(transmitter).spec_mtu().spec_bytes() ==> {
                &&& r == Err::<(), AnonymousPublishError>(AnonymousPublishError::TooLong)
                &&& *final(self) == *old(self)
                &&& *final(transmitter) == *old(transmitter)
            },
            payload@.len() + 1 <= old(transmitter).spec_mtu().spec_bytes() ==> {
                &&& r != Err::<(), AnonymousPublishError>(AnonymousPublishError::TooLong)
                &&& final(self).spec_next_transfer_id() == next_transfer_id(
                    old(self).spec_next_transfer_id(),
                )
                &&& pushed(
                    *old(transmitter),
                    *final(transmitter),
                    deadline,
                    message_header(
                        pseudo_node_id(payload@),
                        old(self).priority,
                        true,
                        old(self).subject,
                    ),
                    old(self).next_transfer_id,
                    payload@,
                    match r {
                        Ok(()) => Ok(()),
                        Err(_) => Err(OutOfMemoryError),
                    },
                )
            },
    {
        if payload.len() >= transmitter.mtu().bytes() {
            return Err(AnonymousPublishError::TooLong);
        }
        let header = TransferHeader {
            source: make_pseudo_id(payload),
            priority: self.priority,
            kind: TransferKindHeader::Message(
                MessageHeader { anonymous: true, subject: self.subject },
            ),
        };
        let transfer_id = self.next_transfer_id;
        self.next_transfer_id = self.next_transfer_id.increment();
        match transmitter.push(deadline, header, transfer_id, payload) {
            Ok(()) => Ok(()),
            Err(_) => Err(AnonymousPublishError::OutOfMemory),
        }
    }
}

/// A service header for a request or response
pub open(crate) spec fn service_header(
    source: NodeId,
    priority: Priority,
    request: bool,
    service: ServiceId,
    destination: NodeId,
) -> TransferHeader {
    let sh = ServiceHeader { service, destination };
    TransferHeader {
        source,
        priority,
        kind: if request {
            TransferKindHeader::Request(sh)
        } else {
            TransferKindHeader::Response(sh)
        },
    }
}

/// Assembles transfers and manages transfer IDs to send service requests
///
/// Each destination node has its own transfer ID counter.
#[derive(Debug, Clone, Copy)]
pub struct Requester {
    /// The ID of this node
    pub this_node: NodeId,
    /// The priority of transfers from this transmitter
    pub priority: Priority,
    /// The timeout for sending transfers
    pub timeout: Duration,
    /// The ID of the next transfer sent to each destination node
    pub next_transfer_ids: [TransferId; 128],
}

impl Requester {
    /// The transfer ID of the next request to a destination
    pub open(crate) spec fn spec_next_transfer_id(self, destination: NodeId) -> u8 {
        self.next_transfer_ids@[destination.spec_value() as int].spec_value()
    }

    /// Creates a service request transmitter
    ///
    /// this_node: The ID of this node
    ///
    /// priority: The priority to use for requests
    pub fn new(this_node: NodeId, timeout: Duration, priority: Priority) -> (r: Requester)
        ensures
            r.this_node == this_node,
            r.timeout == timeout,
            r.priority == priority,
            forall|i: int| 0 <= i < 128 ==> (#[trigger] r.next_transfer_ids@[i]).spec_value() == 0,
    {
        let r = Requester {
            this_node,
            priority,
            timeout,
            next_transfer_ids: [TransferId::default_id(); 128],
        };
        r
    }

    /// Sends a serialized request with a deadline `timeout` after `now`
    pub fn send(
        &mut self,
        now: Instant,
        service: ServiceId,
        payload: &[u8],
        destination: NodeId,
        transmitter: &mut Transmitter,
    ) -> (r: Result<(), OutOfMemoryError>)
        requires
            payload@.len() <= PAYLOAD_MAX,
        ensures
            final(self).this_node == old(self).this_node,
            final(self).priority == old(self).priority,
            final(self).timeout == old(self).timeout,
            final(self).spec_next_transfer_id(destination) == next_transfer_id(
                old(self).spec_next_transfer_id(destination),
            ),
            forall|i: int|
                0 <= i < 128 && i != destination.spec_value() ==> #[trigger] final(
                    self
                ).next_transfer_ids@[i] == old(self).next_transfer_ids@[i],
            pushed(
                *old(transmitter),
                *final(transmitter),
                Instant { micros: now.spec_add_duration(old(self).timeout) },
                service_header(old(self).this_node, old(self).priority, true, service, destination),
                old(self).next_transfer_ids@[destination.spec_value() as int],
                payload@,
                r,
            ),
    {
        let deadline = now.add_duration(self.timeout);
        self.send_payload(payload, service, destination, deadline, transmitter)
    }

    /// Sends a serialized request with a deadline
    pub fn send_payload(
        &mut self,
        payload: &[u8],
        service: ServiceId,
        destination: NodeId,
        deadline: Instant,
        transmitter: &mut Transmitter,
    ) -> (r: Result<(), OutOfMemoryError>)
        requires
            payload@.len() <= PAYLOAD_MAX,
        ensures
            final(self).this_node == old(self).this_node,
            final(self).priority == old(self).priority,
            final(self).timeout == old(self).timeout,
            final(self).spec_next_transfer_id(destination) == next_transfer_id(
                old(self).spec_next_transfer_id(destination),
            ),
            forall|i: int|
                0 <= i < 128 && i != destination.spec_value() ==> #[trigger] final(
                    self
                ).next_transfer_ids@[i] == old(self).next_transfer_ids@[i],
            pushed(
                *old(transmitter),
                *final(transmitter),
                deadline,
                service_header(old(self).this_node, old(self).priority, true, service, destination),
                old(self).next_transfer_ids@[destination.spec_value() as int],
                payload@,
                r,
            ),
    {
        let header = TransferHeader {
            source: self.this_node,
            priority: self.priority,
            kind: TransferKindHeader::Request(ServiceHeader { service, destination }),
        };
        let d = destination.to_u8() as usize;
        let transfer_id = self.next_transfer_ids[d];
        self.next_transfer_ids[d] = transfer_id.increment();
        transmitter.push(deadline, header, transfer_id, payload)
    }
}

/// A token from a request that is needed to send a response
#[derive(Debug)]
pub struct ResponseToken {
    /// ID of the service that this is a response for
    pub(crate) service: ServiceId,
    /// ID of the node that sent the request
    pub(crate) client: NodeId,
    /// Transfer ID of the request transfer (and also the response transfer)
    pub(crate) transfer: TransferId,
    /// Priority of the request transfer (and also the response transfer)
    pub(crate) priority: Priority,
}

impl ResponseToken {
    /// The service of the request
    pub open(crate) spec fn spec_service(self) -> ServiceId {
        self.service
    }

    /// The node that sent the request
    pub open(crate) spec fn spec_client(self) -> NodeId {
        self.client
    }

    /// The transfer ID of the request
    pub open(crate) spec fn spec_transfer(self) -> TransferId {
        self.transfer
    }

    /// The priority of the request
    pub open(crate) spec fn spec_priority(self) -> Priority {
        self.priority
    }

    /// Creates a token for a response to a request
    pub fn new(service: ServiceId, client: NodeId, transfer: TransferId, priority: Priority) -> (r:
        ResponseToken)
        ensures
            r.spec_service() == service,
            r.spec_client() == client,
            r.spec_transfer() == transfer,
            r.spec_priority() == priority,
    {
        ResponseToken { service, client, transfer, priority }
    }
}

/// Sends a serialized response to a request, with the request's transfer ID and priority
///
/// The token is consumed, so at most one response goes out for each request.
pub fn send_response_payload(
    this_node: NodeId,
    token: ResponseToken,
    deadline: Instant,
    payload: &[u8],
    transmitter: &mut Transmitter,
) -> (r: Result<(), OutOfMemoryError>)
    requires
        payload@.len() <= PAYLOAD_MAX,
    ensures
        pushed(
            *old(transmitter),
            *final(transmitter),
            deadline,
            service_header(
                this_node,
                token.spec_priority(),
                false,
                token.spec_service(),
                token.spec_client(),
            ),
            token.spec_transfer(),
            payload@,
            r,
        ),
{
    let header = TransferHeader {
        source: this_node,
        priority: token.priority,
        kind: TransferKindHeader::Response(
            ServiceHeader { service: token.service, destination: token.client },
        ),
    };
    transmitter.push(deadline, header, token.transfer, payload)
}

} // verus!
