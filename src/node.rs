//! A node: one transmitter and one receiver shared by bounded sets of publishers and
//! requesters, with completed incoming transfers handed to a handler.
use vstd::prelude::*;

use crate::bounded_map::{BoundedMap, CapacityError};
use crate::frame::{Frame, OutOfMemoryError};
use crate::header::{Transfer, TransferKind, TransferKindHeader};
use crate::ids::{NodeId, Priority, ServiceId, SubjectId};
use crate::publish::{
    message_header, next_transfer_id, send_response_payload, service_header, Publisher, Requester,
    ResponseToken, PAYLOAD_MAX,
};
use crate::rx::{accept_step, subscribed, Receiver};
use crate::time::{Duration, Instant};
use crate::tx::{pushed, Mtu, Transmitter};

verus! {

/// A source of the current time
pub trait Clock {
    /// Returns the current time
    fn now(&mut self) -> Instant;
}

/// True if `token` is the response token of a request transfer: the request's service, source
/// node, transfer ID and priority
pub open(crate) spec fn token_of_request(transfer: Transfer, token: ResponseToken) -> bool {
    &&& transfer.header.kind matches TransferKindHeader::Request(sh)
    &&& token.spec_service() == sh.service
    &&& token.spec_client() == transfer.header.source
    &&& token.spec_transfer() == transfer.transfer_id
    &&& token.spec_priority() == transfer.header.priority
}

/// Something that may be able to handle incoming transfers
pub trait TransferHandler<C: Clock> {
    /// Handles an incoming message transfer
    fn handle_message(&mut self, transfer: Transfer)
        requires
            transfer.header.kind is Message,
    ;

    /// Handles an incoming service request; the token and responder can send a response
    fn handle_request(&mut self, transfer: Transfer, token: ResponseToken, responder: Responder<'_, C>)
        requires
            token_of_request(transfer, token),
    ;

    /// Handles an incoming service response
    fn handle_response(&mut self, transfer: Transfer)
        requires
            transfer.header.kind is Response,
    ;
}

/// A completed incoming transfer, sorted by kind, with the response token of a request
pub enum Incoming {
    /// A message transfer
    Message(Transfer),
    /// A service request, and the token needed to respond to it
    Request(Transfer, ResponseToken),
    /// A service response
    Response(Transfer),
}

/// Sorts a completed transfer by kind, and makes the response token of a request
pub fn route_transfer(transfer: Transfer) -> (r: Incoming)
    ensures
        transfer.header.kind is Message ==> (r matches Incoming::Message(t) && t == transfer),
        transfer.header.kind is Request ==> (r matches Incoming::Request(t, token) && t == transfer
            && token_of_request(transfer, token)),
        transfer.header.kind is Response ==> (r matches Incoming::Response(t) && t == transfer),
{
    match transfer.header.kind {
        TransferKindHeader::Message(_) => Incoming::Message(transfer),
        TransferKindHeader::Request(service_header) => {
            let token = ResponseToken::new(
                service_header.service,
                transfer.header.source,
                transfer.transfer_id,
                transfer.header.priority,
            );
            Incoming::Request(transfer, token)
        },
        TransferKindHeader::Response(_) => Incoming::Response(transfer),
    }
}

/// A token returned from `start_publishing_topic`, used to publish on its subject
#[derive(Debug)]
pub struct SubscriptionToken(pub(crate) SubjectId);

/// A token returned from `start_sending_requests`, used to send requests for its service
#[derive(Debug)]
pub struct ServiceToken(pub(crate) ServiceId);

impl SubscriptionToken {
    /// The subject of this token
    pub open(crate) spec fn spec_subject(self) -> SubjectId {
        self.0
    }
}

impl ServiceToken {
    /// The service of this token
    pub open(crate) spec fn spec_service(self) -> ServiceId {
        self.0
    }
}

/// An error from `start_sending_requests`
#[derive(Debug, Clone, Copy, PartialEq, Eq, Structural)]
pub enum CapacityOrMemoryError {
    /// The requester map is full, or already has the service
    Capacity(CapacityError),
    /// Memory for the response subscription could not be allocated
    OutOfMemory(OutOfMemoryError),
}

impl From<CapacityError> for CapacityOrMemoryError {
    fn from(inner: CapacityError) -> (r: Self) {
        CapacityOrMemoryError::Capacity(inner)
    }
}

impl vstd::std_specs::convert::FromSpecImpl<CapacityError> for CapacityOrMemoryError {
    open spec fn obeys_from_spec() -> bool {
        true
    }

    open spec fn from_spec(inner: CapacityError) -> Self {
        CapacityOrMemoryError::Capacity(inner)
    }
}

impl From<OutOfMemoryError> for CapacityOrMemoryError {
    fn from(inner: OutOfMemoryError) -> (r: Self) {
        CapacityOrMemoryError::OutOfMemory(inner)
    }
}

impl vstd::std_specs::convert::FromSpecImpl<OutOfMemoryError> for CapacityOrMemoryError {
    open spec fn obeys_from_spec() -> bool {
        true
    }

    open spec fn from_spec(inner: OutOfMemoryError) -> Self {
        CapacityOrMemoryError::OutOfMemory(inner)
    }
}

/// Sends responses to service requests
pub struct Responder<'a, C: Clock> {
    pub(crate) this_node: NodeId,
    pub(crate) transmitter: &'a mut Transmitter,
    pub(crate) clock: &'a mut C,
}

impl<'a, C: Clock> Responder<'a, C> {
    /// The ID of this node
    pub open(crate) spec fn spec_this_node(self) -> NodeId {
        self.this_node
    }

    /// The transmitter that responses go to
    pub open(crate) spec fn spec_transmitter(self) -> Transmitter {
        *self.transmitter
    }

    /// Sends a serialized response to a request, with a deadline `timeout` from now
    ///
    /// The response has the request's service, transfer ID and priority, and goes to the node
    /// that sent the request.
    pub fn send_response(
        &mut self,
        token: ResponseToken,
        timeout: Duration,
        payload: &[u8],
    ) -> (r: Result<(), OutOfMemoryError>)
        requires
            payload@.len() <= PAYLOAD_MAX,
        ensures
            final(self).spec_this_node() == old(self).spec_this_node(),
            exists|now: Instant|
                #[trigger] pushed(
                    old(self).spec_transmitter(),
                    final(self).spec_transmitter(),
                    Instant { micros: now.spec_add_duration(timeout) },
                    service_header(
                        old(self).spec_this_node(),
                        token.spec_priority(),
                        false,
                        token.spec_service(),
                        token.spec_client(),
                    ),
                    token.spec_transfer(),
                    payload@,
                    r,
                ),
    {
        let now = self.clock.now();
        let deadline = now.add_duration(timeout);
        let ghost header = service_header(
            self.this_node,
            token.spec_priority(),
            false,
            token.spec_service(),
            token.spec_client(),
        );
        let ghost transfer_id = token.spec_transfer();
        let r = send_response_payload(self.this_node, token, deadline, payload, self.transmitter);
        assert(deadline == Instant { micros: now.spec_add_duration(timeout) });
        assert(pushed(
            old(self).spec_transmitter(),
            self.spec_transmitter(),
            Instant { micros: now.spec_add_duration(timeout) },
            header,
            transfer_id,
            payload@,
            r,
        ));
        r
    }
}

/// A high-level interface with node functionality
///
/// Type parameters:
/// * `C`: The clock used to get the current time
/// * `H`: The `TransferHandler` that receives incoming transfers
/// * `P`: The maximum number of topics that can be published
/// * `R`: The maximum number of services for which requests can be sent
pub struct Node<C: Clock, H: TransferHandler<C>, const P: usize, const R: usize> {
    pub(crate) clock: C,
    pub(crate) transmitter: Transmitter,
    pub(crate) receiver: Receiver,
    pub(crate) transfer_handler: H,
    pub(crate) node_id: NodeId,
    pub(crate) publishers: BoundedMap<Publisher, P>,
    pub(crate) requesters: BoundedMap<Requester, R>,
}

impl<C: Clock, H: TransferHandler<C>, const P: usize, const R: usize> Node<C, H, P, R> {
    /// Well-formed: the receiver and both maps are
    pub open(crate) spec fn wf(self) -> bool {
        &&& self.receiver.wf()
        &&& self.publishers.wf()
        &&& self.requesters.wf()
    }

    /// The subjects with a publisher, and their publishers
    pub open(crate) spec fn spec_publishers(self) -> Map<u16, Publisher> {
        self.publishers.contents()
    }

    /// The services with a requester, and their requesters
    pub open(crate) spec fn spec_requesters(self) -> Map<u16, Requester> {
        self.requesters.contents()
    }

    /// The receiver
    pub open(crate) spec fn spec_receiver(self) -> Receiver {
        self.receiver
    }

    /// The transmitter
    pub open(crate) spec fn spec_transmitter(self) -> Transmitter {
        self.transmitter
    }

    /// The transfer handler
    pub open(crate) spec fn spec_handler(self) -> H {
        self.transfer_handler
    }

    /// The clock
    pub open(crate) spec fn spec_clock(self) -> C {
        self.clock
    }

    /// The ID of this node
    pub open(crate) spec fn spec_node_id(self) -> NodeId {
        self.node_id
    }

    /// A node never holds more than `P` publishers or `R` requesters.
    pub proof fn lemma_capacity_bound(&self)
        requires
            self.wf(),
        ensures
            self.spec_publishers().len() <= P,
            self.spec_requesters().len() <= R,
    {
        self.publishers.lemma_capacity();
        self.requesters.lemma_capacity();
    }

    /// Creates a node with no publishers, requesters or subscriptions
    pub fn new(clock: C, transfer_handler: H, node_id: NodeId, mtu: Mtu) -> (r: Self)
        ensures
            r.wf(),
            r.spec_node_id() == node_id,
            r.spec_publishers() == Map::<u16, Publisher>::empty(),
            r.spec_requesters() == Map::<u16, Requester>::empty(),
            r.spec_receiver().spec_id() == node_id,
    {
        Node {
            clock,
            transmitter: Transmitter::new(mtu),
            receiver: Receiver::new(node_id),
            transfer_handler,
            node_id,
            publishers: BoundedMap::new(),
            requesters: BoundedMap::new(),
        }
    }

    /// Handles an incoming frame, and hands a transfer that it completes to the handler
    ///
    /// Returns an error if memory for a new session could not be allocated.
    pub fn accept_frame(&mut self, frame: Frame) -> (r: Result<(), OutOfMemoryError>)
        requires
            old(self).wf(),
        ensures
            final(self).wf(),
            final(self).spec_node_id() == old(self).spec_node_id(),
            final(self).spec_publishers() == old(self).spec_publishers(),
            final(self).spec_requesters() == old(self).spec_requesters(),
            exists|received: Result<Option<Transfer>, OutOfMemoryError>|
                #[trigger] accept_step(
                    old(self).spec_receiver(),
                    final(self).spec_receiver(),
                    frame,
                    received,
                ) && (r is Err <==> received is Err),
    {
        let received = self.receiver.accept(frame);
        let ghost result = received;
        let ghost after = self.receiver;
        let r = match received {
            Ok(Some(transfer)) => {
                self.handle_incoming_transfer(transfer);
                Ok(())
            },
            Ok(None) => Ok(()),
            Err(e) => Err(e),
        };
        assert(self.receiver == after);
        assert(accept_step(old(self).spec_receiver(), self.spec_receiver(), frame, result));
        r
    }

    /// Hands a transfer to the handler method for its kind: a message to `handle_message`, a
    /// response to `handle_response`, and a request to `handle_request` with its response token
    /// (`route_transfer`) and a responder for this node
    fn handle_incoming_transfer(&mut self, transfer: Transfer)
        ensures
            final(self).receiver == old(self).receiver,
            final(self).publishers == old(self).publishers,
            final(self).requesters == old(self).requesters,
            final(self).node_id == old(self).node_id,
    {
        match route_transfer(transfer) {
            Incoming::Message(t) => {
                self.transfer_handler.handle_message(t);
            },
            Incoming::Request(t, token) => {
                let responder = Responder {
                    this_node: self.node_id,
                    transmitter: &mut self.transmitter,
                    clock: &mut self.clock,
                };
                self.transfer_handler.handle_request(t, token, responder);
            },
            Incoming::Response(t) => {
                self.transfer_handler.handle_response(t);
            },
        }
    }

    /// Starts publishing on a subject
    ///
    /// Fails with a capacity error when `P` subjects are already published, or when this
    /// subject already is.
    pub fn start_publishing_topic(
        &mut self,
        subject: SubjectId,
        timeout: Duration,
        priority: Priority,
    ) -> (r: Result<SubscriptionToken, CapacityError>)
        requires
            old(self).wf(),
        ensures
            final(self).wf(),
            final(self).spec_node_id() == old(self).spec_node_id(),
            final(self).spec_receiver() == old(self).spec_receiver(),
            final(self).spec_requesters() == old(self).spec_requesters(),
            r is Ok <==> !old(self).spec_publishers().contains_key(subject.spec_value())
                && old(self).spec_publishers().len() < P,
            r matches Ok(token) ==> token.spec_subject() == subject,
            r is Ok ==> {
                let p = final(self).spec_publishers()[subject.spec_value()];
                &&& final(self).spec_publishers() == old(self).spec_publishers().insert(
                    subject.spec_value(),
                    p,
                )
                &&& p.spec_next_transfer_id() == 0
                &&& p.timeout == timeout
                &&& p.priority == priority
                &&& p.source == old(self).spec_node_id()
            },
            r is Err ==> final(self).spec_publishers() == old(self).spec_publishers(),
    {
        let publisher = Publisher::new(self.node_id, timeout, priority);
        match self.publishers.insert(subject.to_u16(), publisher) {
            Ok(()) => Ok(SubscriptionToken(subject)),
            Err(e) => Err(e),
        }
    }

    /// Stops publishing on the subject of a token
    pub fn stop_publishing_topic(&mut self, token: SubscriptionToken)
        requires
            old(self).wf(),
        ensures
            final(self).wf(),
            final(self).spec_node_id() == old(self).spec_node_id(),
            final(self).spec_receiver() == old(self).spec_receiver(),
            final(self).spec_requesters() == old(self).spec_requesters(),
            final(self).spec_publishers() == old(self).spec_publishers().remove(
                token.spec_subject().spec_value(),
            ),
    {
        self.publishers.remove(token.0.to_u16());
    }

    /// Publishes a serialized message on the subject of a token
    pub fn publish_to_topic(&mut self, token: &SubscriptionToken, payload: &[u8]) -> (r: Result<
        (),
        OutOfMemoryError,
    >)
        requires
            old(self).wf(),
            old(self).spec_publishers().contains_key(token.spec_subject().spec_value()),
            payload@.len() <= PAYLOAD_MAX,
        ensures
            final(self).wf(),
            final(self).spec_node_id() == old(self).spec_node_id(),
            final(self).spec_receiver() == old(self).spec_receiver(),
            final(self).spec_requesters() == old(self).spec_requesters(),
            ({
                let key = token.spec_subject().spec_value();
                let p = old(self).spec_publishers()[key];
                let q = final(self).spec_publishers()[key];
                &&& final(self).spec_publishers() == old(self).spec_publishers().insert(key, q)
                &&& q.spec_next_transfer_id() == next_transfer_id(p.spec_next_transfer_id())
                &&& q.timeout == p.timeout && q.priority == p.priority && q.source == p.source
                &&& exists|now: Instant|
                    #[trigger] pushed(
                        old(self).spec_transmitter(),
                        final(self).spec_transmitter(),
                        Instant { micros: now.spec_add_duration(p.timeout) },
                        message_header(p.source, p.priority, false, token.spec_subject()),
                        p.next_transfer_id,
                        payload@,
                        r,
                    )
            }),
    {
        let key = token.0.to_u16();
        let mut publisher = match self.publishers.get(key) {
            Some(publisher) => *publisher,
            None => {
                assert(false);
                return Ok(());
            },
        };
        let now = self.clock.now();
        let r = publisher.publish(now, token.0, payload, &mut self.transmitter);
        self.publishers.set(key, publisher);
        r
    }

    /// Sets up to send requests for a service, and subscribes to its responses
    ///
    /// If the response subscription cannot be made, the requester is removed again.
    pub fn start_sending_requests(
        &mut self,
        service: ServiceId,
        receive_timeout: Duration,
        response_payload_size_max: usize,
        priority: Priority,
    ) -> (r: Result<ServiceToken, CapacityOrMemoryError>)
        requires
            old(self).wf(),
        ensures
            final(self).wf(),
            final(self).spec_node_id() == old(self).spec_node_id(),
            final(self).spec_publishers() == old(self).spec_publishers(),
            (r matches Err(CapacityOrMemoryError::Capacity(_))) <==> (old(
                self,
            ).spec_requesters().contains_key(service.spec_value()) || old(
                self,
            ).spec_requesters().len() >= R),
            r matches Err(CapacityOrMemoryError::Capacity(_)) ==> final(self).spec_receiver() == old(
                self,
            ).spec_receiver(),
            !(r matches Err(CapacityOrMemoryError::Capacity(_))) ==> {
                &&& subscribed(
                    old(self).spec_receiver().subscriptions(TransferKind::Response),
                    final(self).spec_receiver().subscriptions(TransferKind::Response),
                    service.spec_value(),
                    response_payload_size_max,
                    receive_timeout,
                    match r {
                        Ok(_) => Ok(()),
                        Err(_) => Err(OutOfMemoryError),
                    },
                )
                &&& forall|k: TransferKind|
                    k != TransferKind::Response ==> #[trigger] final(self).spec_receiver().subscriptions(k) == old(self).spec_receiver().subscriptions(k)
                &&& final(self).spec_receiver().spec_id() == old(self).spec_receiver().spec_id()
                &&& final(self).spec_receiver().spec_error_count() == old(
                    self,
                ).spec_receiver().spec_error_count()
                &&& final(self).spec_receiver().spec_transfer_count() == old(
                    self,
                ).spec_receiver().spec_transfer_count()
            },
            r matches Ok(token) ==> token.spec_service() == service,
            r is Ok ==> {
                let q = final(self).spec_requesters()[service.spec_value()];
                &&& final(self).spec_requesters() == old(self).spec_requesters().insert(
                    service.spec_value(),
                    q,
                )
                &&& q.this_node == old(self).spec_node_id()
                &&& q.timeout == receive_timeout
                &&& q.priority == priority
                &&& forall|i: int|
                    0 <= i < 128 ==> (#[trigger] q.next_transfer_ids@[i]).spec_value() == 0
            },
            r is Err ==> final(self).spec_requesters() == old(self).spec_requesters(),
    {
        let requester = Requester::new(self.node_id, receive_timeout, priority);
        let key = service.to_u16();
        match self.requesters.insert(key, requester) {
            Ok(()) => {},
            Err(e) => return Err(CapacityOrMemoryError::from(e)),
        }
        match self.receiver.subscribe_response(service, response_payload_size_max, receive_timeout) {
            Ok(()) => Ok(ServiceToken(service)),
            Err(e) => {
                // Clean up the requester
                self.requesters.remove(key);
                assert(self.spec_requesters() =~= old(self).spec_requesters());
                Err(CapacityOrMemoryError::from(e))
            },
        }
    }

    /// Stops sending requests for the service of a token
    ///
    /// The response subscription stays.
    pub fn stop_sending_requests(&mut self, token: ServiceToken)
        requires
            old(self).wf(),
        ensures
            final(self).wf(),
            final(self).spec_node_id() == old(self).spec_node_id(),
            final(self).spec_receiver() == old(self).spec_receiver(),
            final(self).spec_publishers() == old(self).spec_publishers(),
            final(self).spec_requesters() == old(self).spec_requesters().remove(
                token.spec_service().spec_value(),
            ),
    {
        self.requesters.remove(token.0.to_u16());
    }

    /// Sends a serialized request for the service of a token to a destination node
    pub fn send_request(&mut self, token: &ServiceToken, payload: &[u8], destination: NodeId) -> (r:
        Result<(), OutOfMemoryError>)
        requires
            old(self).wf(),
            old(self).spec_requesters().contains_key(token.spec_service().spec_value()),
            payload@.len() <= PAYLOAD_MAX,
        ensures
            final(self).wf(),
            final(self).spec_node_id() == old(self).spec_node_id(),
            final(self).spec_receiver() == old(self).spec_receiver(),
            final(self).spec_publishers() == old(self).spec_publishers(),
            ({
                let key = token.spec_service().spec_value();
                let p = old(self).spec_requesters()[key];
                let q = final(self).spec_requesters()[key];
                let d = destination.spec_value() as int;
                &&& final(self).spec_requesters() == old(self).spec_requesters().insert(key, q)
                &&& q.next_transfer_ids@[d].spec_value() == next_transfer_id(
                    p.next_transfer_ids@[d].spec_value(),
                )
                &&& forall|i: int|
                    0 <= i < 128 && i != d ==> #[trigger] q.next_transfer_ids@[i]
                        == p.next_transfer_ids@[i]
                &&& q.timeout == p.timeout && q.priority == p.priority && q.this_node == p.this_node
                &&& exists|now: Instant|
                    #[trigger] pushed(
                        old(self).spec_transmitter(),
                        final(self).spec_transmitter(),
                        Instant { micros: now.spec_add_duration(p.timeout) },
                        service_header(p.this_node, p.priority, true, token.spec_service(), destination),
                        p.next_transfer_ids@[d],
                        payload@,
                        r,
                    )
            }),
    {
        let key = token.0.to_u16();
        let mut requester = match self.requesters.get(key) {
            Some(requester) => *requester,
            None => {
                assert(false);
                return Ok(());
            },
        };
        let now = self.clock.now();
        let r = requester.send(now, token.0, payload, destination, &mut self.transmitter);
        self.requesters.set(key, requester);
        r
    }

    /// Subscribes to messages on a subject
    pub fn subscribe_message(
        &mut self,
        subject: SubjectId,
        payload_size_max: usize,
        timeout: Duration,
    ) -> (r: Result<(), OutOfMemoryError>)
        requires
            old(self).wf(),
        ensures
            final(self).wf(),
            final(self).spec_node_id() == old(self).spec_node_id(),
            final(self).spec_publishers() == old(self).spec_publishers(),
            final(self).spec_requesters() == old(self).spec_requesters(),
            subscribed(
                old(self).spec_receiver().subscriptions(crate::header::TransferKind::Message),
                final(self).spec_receiver().subscriptions(crate::header::TransferKind::Message),
                subject.spec_value(),
                payload_size_max,
                timeout,
                r,
            ),
    {
        self.receiver.subscribe_message(subject, payload_size_max, timeout)
    }

    /// Subscribes to requests for a service
    pub fn subscribe_request(
        &mut self,
        service: ServiceId,
        payload_size_max: usize,
        timeout: Duration,
    ) -> (r: Result<(), OutOfMemoryError>)
        requires
            old(self).wf(),
        ensures
            final(self).wf(),
            final(self).spec_node_id() == old(self).spec_node_id(),
            final(self).spec_publishers() == old(self).spec_publishers(),
            final(self).spec_requesters() == old(self).spec_requesters(),
            subscribed(
                old(self).spec_receiver().subscriptions(crate::header::TransferKind::Request),
                final(self).spec_receiver().subscriptions(crate::header::TransferKind::Request),
                service.spec_value(),
                payload_size_max,
                timeout,
                r,
            ),
    {
        self.receiver.subscribe_request(service, payload_size_max, timeout)
    }

    /// Returns a responder, which can be used to respond to service requests
    pub fn responder(&mut self) -> (r: Responder<'_, C>)
        ensures
            r.spec_this_node() == old(self).spec_node_id(),
            r.spec_transmitter() == old(self).spec_transmitter(),
            final(self).spec_node_id() == old(self).spec_node_id(),
            final(self).spec_receiver() == old(self).spec_receiver(),
            final(self).spec_publishers() == old(self).spec_publishers(),
            final(self).spec_requesters() == old(self).spec_requesters(),
    {
        Responder { this_node: self.node_id, transmitter: &mut self.transmitter, clock: &mut self.clock }
    }

    /// Returns true if the subject of a token has a publisher
    pub fn has_publisher(&self, token: &SubscriptionToken) -> (r: bool)
        requires
            self.wf(),
        ensures
            r == self.spec_publishers().contains_key(token.spec_subject().spec_value()),
    {
        self.publishers.contains_key(token.0.to_u16())
    }

    /// Returns true if the service of a token has a requester
    pub fn has_requester(&self, token: &ServiceToken) -> (r: bool)
        requires
            self.wf(),
        ensures
            r == self.spec_requesters().contains_key(token.spec_service().spec_value()),
    {
        self.requesters.contains_key(token.0.to_u16())
    }

    /// Returns the ID of this node
    pub fn node_id(&self) -> (r: NodeId)
        ensures
            r == self.spec_node_id(),
    {
        self.node_id
    }

    /// Returns the transfer handler
    pub fn handler(&self) -> (r: &H)
        ensures
            *r == self.spec_handler(),
    {
        &self.transfer_handler
    }

    /// Returns the clock
    pub fn clock(&self) -> (r: &C)
        ensures
            *r == self.spec_clock(),
    {
        &self.clock
    }

    /// Returns the transmitter
    pub fn transmitter(&self) -> (r: &Transmitter)
        ensures
            *r == self.spec_transmitter(),
    {
        &self.transmitter
    }

    /// Returns the transmitter, whose queue holds the frames to send
    pub fn transmitter_mut(&mut self) -> (r: &mut Transmitter)
        ensures
            *r == old(self).spec_transmitter(),
            final(self).spec_transmitter() == *final(r),
            final(self).spec_node_id() == old(self).spec_node_id(),
            final(self).spec_receiver() == old(self).spec_receiver(),
            final(self).spec_publishers() == old(self).spec_publishers(),
            final(self).spec_requesters() == old(self).spec_requesters(),
    {
        &mut self.transmitter
    }

    /// Returns the receiver
    pub fn receiver(&self) -> (r: &Receiver)
        ensures
            *r == self.spec_receiver(),
    {
        &self.receiver
    }
}

} // verus!
