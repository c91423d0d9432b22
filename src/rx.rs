//! Reception: subscriptions, per-source sessions, and the reassembly of incoming frames into
//! transfers.
use vstd::prelude::*;

use crate::buildup::{Buildup, BuildupError};
use crate::can_id::{parse_can_id, spec_parse_can_id};
use crate::crc::{transfer_crc, TransferCrc};
use crate::fallible::{try_box, try_push};
use crate::frame::{Frame, OutOfMemoryError};
use crate::header::{Transfer, TransferHeader, TransferKind, TransferKindHeader};
use crate::ids::{NodeId, ServiceId, SubjectId, TransferId};
use crate::tail::TailByte;
use crate::time::{Duration, Instant};

verus! {

/// One session slot per node ID
pub const RX_SESSIONS_PER_SUBSCRIPTION: usize = 128;

/// A receive session: the reassembly of one transfer from one source node
#[derive(Debug)]
pub struct Session {
    /// Timestamp of the first frame received in this transfer
    pub(crate) transfer_timestamp: Instant,
    /// Transfer reassembly
    pub(crate) buildup: Buildup,
}

impl Session {
    /// The timestamp of the first frame of the transfer
    pub open(crate) spec fn spec_transfer_timestamp(self) -> Instant {
        self.transfer_timestamp
    }

    /// The transfer ID of the transfer
    pub open(crate) spec fn spec_transfer_id(self) -> TransferId {
        self.buildup.transfer_id
    }

    /// The toggle bit that the next frame must have
    pub open(crate) spec fn spec_expected_toggle(self) -> bool {
        self.buildup.expected_toggle
    }

    /// The number of frames received so far
    pub open(crate) spec fn spec_frames(self) -> usize {
        self.buildup.frames
    }

    /// The payload bytes received so far
    pub open(crate) spec fn spec_bytes(self) -> Seq<u8> {
        self.buildup.bytes@
    }

    /// Creates a session for a transfer whose first frame arrived at `transfer_timestamp`
    pub(crate) fn new(transfer_timestamp: Instant, transfer_id: TransferId) -> (r: Session)
        ensures
            r.transfer_timestamp == transfer_timestamp,
            r.buildup.transfer_id == transfer_id,
            r.buildup.expected_toggle,
            r.buildup.frames == 0,
            r.buildup.bytes@ == Seq::<u8>::empty(),
    {
        Session { transfer_timestamp, buildup: Buildup::new(transfer_id) }
    }
}

/// Returns 128 empty session slots
pub fn init_rx_sessions() -> (r: Vec<Option<Box<Session>>>)
    ensures
        r@.len() == RX_SESSIONS_PER_SUBSCRIPTION,
        forall|i: int| 0 <= i < r@.len() ==> r@[i] is None,
{
    let mut sessions: Vec<Option<Box<Session>>> = Vec::new();
    let mut i: usize = 0;
    while i < RX_SESSIONS_PER_SUBSCRIPTION
        invariant
            i <= RX_SESSIONS_PER_SUBSCRIPTION,
            sessions@.len() == i,
            forall|j: int| 0 <= j < sessions@.len() ==> sessions@[j] is None,
        decreases RX_SESSIONS_PER_SUBSCRIPTION - i,
    {
        sessions.push(None);
        i = i + 1;
    }
    sessions
}

/// Interest in one subject or service: transfers on it are reassembled, one session per source
#[derive(Debug)]
pub struct Subscription {
    /// A session slot for each node ID
    pub(crate) sessions: Vec<Option<Box<Session>>>,
    /// Maximum time difference between the first and last frames in a transfer
    pub(crate) timeout: Duration,
    /// Maximum number of payload bytes, including 2 bytes for the CRC if necessary
    pub(crate) payload_size_max: usize,
    /// Subject or service ID that this subscription is about
    pub(crate) port_id: u16,
}

/// The result of handing a frame to a subscription
#[derive(Debug)]
pub enum SessionOutcome {
    /// The frame belongs to no transfer in progress; nothing changed
    Ignored,
    /// The frame was accepted and the transfer is not complete yet
    Pending,
    /// The frame completed a transfer
    Complete(Transfer),
    /// The transfer was abandoned: too long, too late, a bad toggle or start bit, or a bad CRC
    Dropped,
    /// No memory for a new session
    NoMemory,
    /// The transfer was abandoned because there was no memory for its payload
    PayloadNoMemory,
}

/// True if the reassembled bytes of a transfer whose last frame brought the frame count to
/// `frames` may be delivered: a single frame has no CRC, and more frames must end with a CRC
/// that makes the CRC of the whole zero
pub open spec fn transfer_valid(frames: usize, data: Seq<u8>) -> bool {
    frames <= 1 || (data.len() >= 2 && transfer_crc(data) == 0)
}

/// The payload of a valid transfer: the reassembled bytes, without the CRC if there is one
pub open spec fn transfer_payload(frames: usize, data: Seq<u8>) -> Seq<u8> {
    if frames <= 1 {
        data
    } else {
        data.subrange(0, data.len() - 2)
    }
}

/// Checks the reassembled bytes of a completed transfer and builds the transfer
///
/// `frames` is the number of frames the transfer took. A transfer of more than one frame must
/// end with its CRC, which is checked and removed; `None` means the CRC is wrong.
pub fn complete_transfer(
    header: TransferHeader,
    timestamp: Instant,
    transfer_id: TransferId,
    frames: usize,
    data: Vec<u8>,
) -> (r: Option<Transfer>)
    ensures
        r is Some <==> transfer_valid(frames, data@),
        r matches Some(t) ==> t.header == header && t.timestamp == timestamp && t.transfer_id
            == transfer_id && t.payload@ == transfer_payload(frames, data@),
{
    let mut data = data;
    if frames > 1 {
        // A multi-frame transfer ends with the CRC of its payload
        let mut crc = TransferCrc::new();
        crc.add_bytes(data.as_slice());
        if crc.get() != 0 || data.len() < 2 {
            return None;
        }
        let len = data.len() - 2;
        data.truncate(len);
    }
    Some(Transfer { timestamp, header, transfer_id, payload: data })
}

/// True if a session slot holds a session whose first frame is more than `timeout` before `now`
pub open(crate) spec fn slot_expired(
    slot: Option<Box<Session>>,
    timeout: Duration,
    now: Instant,
) -> bool {
    slot matches Some(s) && now.spec_duration_since(s.transfer_timestamp) > timeout.micros
}

/// A session slot with its session removed if it has expired
pub open(crate) spec fn expire_slot(
    slot: Option<Box<Session>>,
    timeout: Duration,
    now: Instant,
) -> Option<Box<Session>> {
    if slot_expired(slot, timeout, now) {
        None
    } else {
        slot
    }
}

/// `t` has the timeout, payload budget, port and number of session slots of `s`
pub open(crate) spec fn same_settings(s: Subscription, t: Subscription) -> bool {
    &&& t.timeout == s.timeout
    &&& t.payload_size_max == s.payload_size_max
    &&& t.port_id == s.port_id
    &&& t.sessions@.len() == s.sessions@.len()
}

/// `t` is `s` after every expired session has been removed
pub(crate) open spec fn expired_sub(s: Subscription, t: Subscription, now: Instant) -> bool {
    &&& same_settings(s, t)
    &&& forall|n: int|
        0 <= n < s.sessions@.len() ==> #[trigger] t.sessions@[n] == expire_slot(
            s.sessions@[n],
            s.timeout,
            now,
        )
}

/// `new` is the subscription list `old` after every expired session has been removed
pub(crate) open spec fn expired_list(old: Seq<Subscription>, new: Seq<Subscription>, now: Instant) -> bool {
    &&& new.len() == old.len()
    &&& forall|i: int| 0 <= i < old.len() ==> expired_sub(old[i], #[trigger] new[i], now)
}

/// The frame data without the tail byte
pub open(crate) spec fn frame_payload(frame: Frame) -> Seq<u8> {
    frame.data@.drop_last()
}

/// `frames + 1`, saturating
pub open(crate) spec fn frames_after(frames: usize) -> usize {
    if frames < usize::MAX {
        (frames + 1) as usize
    } else {
        frames
    }
}

/// How a session slot changes when a frame of a transfer is handed to it, and with which
/// outcome
///
/// A frame whose transfer ID differs from the session's, or one without the start bit when
/// there is no session, is ignored. Otherwise the frame continues the session, or starts one
/// that began at the frame's timestamp. The transfer is dropped if its payload would exceed
/// `max`, if the frame arrives more than `timeout` after the first frame, or if its start or
/// toggle bit is wrong. The last frame completes it: a transfer of more than one frame must
/// end with its CRC, which is removed, and is dropped if that CRC is wrong. Where memory runs
/// out, for a new session or for the payload, the outcome is `NoMemory` or `PayloadNoMemory`
/// instead.
pub open(crate) spec fn session_step(
    old_slot: Option<Box<Session>>,
    new_slot: Option<Box<Session>>,
    header: TransferHeader,
    tail: TailByte,
    frame: Frame,
    max: usize,
    timeout: Duration,
    o: SessionOutcome,
) -> bool {
    let payload = frame_payload(frame);
    if (old_slot matches Some(s) && s.buildup.transfer_id != tail.transfer_id) || (old_slot is None
        && !tail.start) {
        o is Ignored && new_slot == old_slot
    } else if o is NoMemory {
        old_slot is None && new_slot is None
    } else {
        let ts = match old_slot {
            Some(s) => s.transfer_timestamp,
            None => frame.timestamp,
        };
        let frames = match old_slot {
            Some(s) => s.buildup.frames,
            None => 0,
        };
        let toggle = match old_slot {
            Some(s) => s.buildup.expected_toggle,
            None => true,
        };
        let bytes = match old_slot {
            Some(s) => s.buildup.bytes@,
            None => Seq::<u8>::empty(),
        };
        let all = bytes + payload;
        if all.len() > max {
            o is Dropped && new_slot is None
        } else if frame.timestamp.spec_duration_since(ts) > timeout.micros {
            o is Dropped && new_slot is None
        } else if (frames == 0 && !tail.start) || tail.toggle != toggle {
            o is Dropped && new_slot is None
        } else if !tail.end {
            ||| (o is PayloadNoMemory && new_slot is None)
            ||| (o is Pending && (new_slot matches Some(s2) && s2.transfer_timestamp
                == ts && s2.buildup.transfer_id == tail.transfer_id
                && s2.buildup.bytes@ == all && s2.buildup.expected_toggle
                == !toggle && s2.buildup.frames == frames_after(frames)))
        } else {
            &&& new_slot is None
            &&& {
                ||| o is PayloadNoMemory
                ||| (transfer_valid(frames_after(frames), all) && (o matches SessionOutcome::Complete(t)
                    && t.timestamp == ts && t.header == header && t.transfer_id
                    == tail.transfer_id && t.payload@ == transfer_payload(frames_after(frames), all)))
                ||| (!transfer_valid(frames_after(frames), all) && o is Dropped)
            }
        }
    }
}

impl Subscription {
    /// The subject or service ID of this subscription
    pub open(crate) spec fn spec_port(self) -> u16 {
        self.port_id
    }

    /// The largest payload, CRC included, that this subscription accepts
    pub open(crate) spec fn spec_payload_size_max(self) -> usize {
        self.payload_size_max
    }

    /// The longest time from the first to the last frame of a transfer
    pub open(crate) spec fn spec_timeout(self) -> Duration {
        self.timeout
    }

    /// The session slot of a node
    pub open(crate) spec fn spec_slot(self, node: int) -> Option<Box<Session>> {
        self.sessions@[node]
    }

    /// Well-formed: one slot per node ID, and no session holds more than `payload_size_max`
    /// bytes
    pub open(crate) spec fn wf(self) -> bool {
        &&& self.sessions@.len() == RX_SESSIONS_PER_SUBSCRIPTION
        &&& forall|n: int|
            0 <= n < self.sessions@.len() ==> (#[trigger] self.sessions@[n] matches Some(s)
                ==> s.buildup.bytes@.len() <= self.payload_size_max)
    }

    /// Creates a subscription with no sessions
    pub fn new(timeout: Duration, payload_size_max: usize, port_id: u16) -> (r: Subscription)
        ensures
            r.wf(),
            r.spec_timeout() == timeout,
            r.spec_payload_size_max() == payload_size_max,
            r.spec_port() == port_id,
            forall|n: int| 0 <= n < RX_SESSIONS_PER_SUBSCRIPTION ==> #[trigger] r.spec_slot(n) is None,
    {
        Subscription { sessions: init_rx_sessions(), timeout, payload_size_max, port_id }
    }

    /// Creates an empty session for a node, replacing any session it had
    ///
    /// Returns an error if memory allocation fails, leaving the slot as it was.
    pub fn create_session(
        &mut self,
        node: NodeId,
        transfer_timestamp: Instant,
        transfer_id: TransferId,
    ) -> (r: Result<(), OutOfMemoryError>)
        requires
            old(self).wf(),
        ensures
            final(self).wf(),
            same_settings(*old(self), *final(self)),
            forall|n: int|
                0 <= n < RX_SESSIONS_PER_SUBSCRIPTION && n != node.spec_value() ==> #[trigger] final(self).spec_slot(n) == old(self).spec_slot(n),
            r is Err ==> final(self).spec_slot(node.spec_value() as int) == old(self).spec_slot(
                node.spec_value() as int,
            ),
            r is Ok ==> (final(self).spec_slot(node.spec_value() as int) matches Some(s)
                && s.spec_transfer_timestamp() == transfer_timestamp && s.spec_transfer_id()
                == transfer_id && s.spec_expected_toggle() && s.spec_frames() == 0
                && s.spec_bytes().len() == 0),
    {
        let n = node.to_u8() as usize;
        match try_box(Session::new(transfer_timestamp, transfer_id)) {
            Ok(session) => {
                self.sessions.set(n, Some(session));
                Ok(())
            },
            Err(_) => Err(OutOfMemoryError),
        }
    }

    /// Destroys the session for the provided node
    pub fn destroy_session(&mut self, node: NodeId)
        requires
            old(self).wf(),
        ensures
            final(self).wf(),
            same_settings(*old(self), *final(self)),
            forall|n: int|
                0 <= n < RX_SESSIONS_PER_SUBSCRIPTION && n != node.spec_value() ==> #[trigger] final(self).spec_slot(n) == old(self).spec_slot(n),
            final(self).spec_slot(node.spec_value() as int) is None,
    {
        let n = node.to_u8() as usize;
        self.sessions.set(n, None);
    }

    /// Removes every session whose first frame is more than the timeout before `now`
    fn clean_expired(&mut self, now: Instant)
        requires
            old(self).wf(),
        ensures
            final(self).wf(),
            expired_sub(*old(self), *final(self), now),
    {
        let ghost start = *self;
        let mut n: usize = 0;
        while n < self.sessions.len()
            invariant
                self.wf(),
                same_settings(start, *self),
                n <= self.sessions@.len(),
                forall|m: int|
                    0 <= m < n ==> #[trigger] self.sessions@[m] == expire_slot(
                        start.sessions@[m],
                        start.timeout,
                        now,
                    ),
                forall|m: int|
                    n <= m < self.sessions@.len() ==> #[trigger] self.sessions@[m]
                        == start.sessions@[m],
            decreases self.sessions@.len() - n,
        {
            let expired = match &self.sessions[n] {
                Some(session) => now.duration_since(session.transfer_timestamp).micros
                    > self.timeout.micros,
                None => false,
            };
            if expired {
                self.sessions.set(n, None);
            }
            n = n + 1;
        }
    }

    /// Hands a frame, whose header and tail byte have been checked, to the session of its
    /// source node
    fn accept_frame(&mut self, header: TransferHeader, tail: TailByte, frame: &Frame) -> (r:
        SessionOutcome)
        requires
            old(self).wf(),
            frame.data@.len() >= 1,
            tail == TailByte::spec_parse(frame.data@.last()),
        ensures
            final(self).wf(),
            same_settings(*old(self), *final(self)),
            forall|n: int|
                0 <= n < old(self).sessions@.len() && n != header.source.spec_value() ==> final(self).sessions@[n] == old(self).sessions@[n],
            session_step(
                old(self).sessions@[header.source.spec_value() as int],
                final(self).sessions@[header.source.spec_value() as int],
                header,
                tail,
                *frame,
                old(self).payload_size_max,
                old(self).timeout,
                r,
            ),
    {
        let src = header.source.to_u8() as usize;
        let ghost old_slot = self.sessions@[src as int];
        let max = self.payload_size_max;
        let timeout = self.timeout;

        // Find the session for this source node, or start one
        let existing = match &self.sessions[src] {
            Some(session) => {
                if session.buildup.transfer_id() != tail.transfer_id {
                    // This frame belongs to some other transfer
                    return SessionOutcome::Ignored;
                }
                true
            },
            None => {
                if !tail.start {
                    // Not the start of a transfer, and no transfer in progress
                    return SessionOutcome::Ignored;
                }
                false
            },
        };
        let mut slot: Option<Box<Session>> = None;
        if existing {
            let mut taken: Option<Box<Session>> = None;
            std::mem::swap(&mut taken, &mut self.sessions[src]);
            slot = taken;
        } else {
            match try_box(Session::new(frame.timestamp, tail.transfer_id)) {
                Ok(session) => {
                    slot = Some(session);
                },
                Err(_) => {
                    return SessionOutcome::NoMemory;
                },
            }
        }
        let mut session = match slot {
            Some(session) => session,
            None => {
                assert(false);
                return SessionOutcome::Ignored;
            },
        };
        assert(self.sessions@ == old(self).sessions@.update(src as int, None));

        // Check if this frame will make the transfer exceed the maximum length
        let data_len = frame.data.len();
        let current = session.buildup.payload_length();
        if data_len - 1 > max - current {
            return SessionOutcome::Dropped;
        }
        // Check if this frame is too late
        if frame.timestamp.duration_since(session.transfer_timestamp).micros > timeout.micros {
            return SessionOutcome::Dropped;
        }
        match session.buildup.add(frame.data.as_slice()) {
            Ok(Some(transfer_data)) => {
                match complete_transfer(
                    header,
                    session.transfer_timestamp,
                    session.buildup.transfer_id(),
                    session.buildup.frames(),
                    transfer_data,
                ) {
                    Some(transfer) => SessionOutcome::Complete(transfer),
                    None => SessionOutcome::Dropped,
                }
            },
            Ok(None) => {
                self.sessions.set(src, Some(session));
                SessionOutcome::Pending
            },
            Err(BuildupError::OutOfMemory) => SessionOutcome::PayloadNoMemory,
            Err(_) => SessionOutcome::Dropped,
        }
    }
}

/// True if no two subscriptions in a list share a port, and each is well-formed
pub(crate) open spec fn list_wf(subs: Seq<Subscription>) -> bool {
    &&& forall|i: int| 0 <= i < subs.len() ==> (#[trigger] subs[i]).wf()
    &&& forall|i: int, j: int|
        0 <= i < subs.len() && 0 <= j < subs.len() && i != j ==> (#[trigger] subs[i]).port_id
            != (#[trigger] subs[j]).port_id
}

/// True if no subscription in a list is on `port`
pub open(crate) spec fn no_port(subs: Seq<Subscription>, port: u16) -> bool {
    forall|i: int| 0 <= i < subs.len() ==> (#[trigger] subs[i]).port_id != port
}

/// How the subscription list of a frame's kind changes when the frame arrives: every expired
/// session is removed, and the frame goes to the subscription on its port, if any. `o` holds
/// the index of that subscription and the outcome, or is `None` if no subscription is on the
/// port.
pub(crate) open spec fn kind_step(
    old: Seq<Subscription>,
    new: Seq<Subscription>,
    header: TransferHeader,
    tail: TailByte,
    frame: Frame,
    o: Option<(usize, SessionOutcome)>,
) -> bool {
    let now = frame.timestamp;
    let src = header.source.spec_value() as int;
    &&& new.len() == old.len()
    &&& match o {
        None => expired_list(old, new, now) && no_port(old, header.kind.spec_port()),
        Some((i, so)) => {
            &&& 0 <= i < old.len()
            &&& old[i as int].port_id == header.kind.spec_port()
            &&& forall|j: int|
                0 <= j < old.len() && j != i ==> expired_sub(old[j], #[trigger] new[j], now)
            &&& same_settings(old[i as int], new[i as int])
            &&& forall|n: int|
                0 <= n < old[i as int].sessions@.len() && n != src ==> #[trigger] new[i as int].sessions@[n]
                    == expire_slot(old[i as int].sessions@[n], old[i as int].timeout, now)
            &&& session_step(
                expire_slot(old[i as int].sessions@[src], old[i as int].timeout, now),
                new[i as int].sessions@[src],
                header,
                tail,
                frame,
                old[i as int].payload_size_max,
                old[i as int].timeout,
                so,
            )
        },
    }
}

/// What `Receiver::accept` returns for an outcome
pub(crate) open spec fn result_of(o: Option<(usize, SessionOutcome)>) -> Result<
    Option<Transfer>,
    OutOfMemoryError,
> {
    match o {
        Some((_, SessionOutcome::Complete(t))) => Ok(Some(t)),
        Some((_, SessionOutcome::NoMemory)) => Err(OutOfMemoryError),
        _ => Ok(None),
    }
}

/// True if an outcome counts as an error
pub(crate) open spec fn is_error(o: Option<(usize, SessionOutcome)>) -> bool {
    o matches Some((_, so)) && (so is Dropped || so is NoMemory || so is PayloadNoMemory)
}

/// True if an outcome counts as a received transfer
pub(crate) open spec fn is_transfer(o: Option<(usize, SessionOutcome)>) -> bool {
    o matches Some((_, so)) && so is Complete
}

/// `x + 1`, wrapping
pub open spec fn wrapping_inc(x: u64) -> u64 {
    if x == u64::MAX {
        0
    } else {
        (x + 1) as u64
    }
}

/// The header and tail byte of a frame, if it passes the checks that do not depend on
/// subscriptions: it has a tail byte, its CAN ID parses, a service transfer is addressed to
/// `local`, and an anonymous message fits in one frame
pub open(crate) spec fn spec_sanity_check(local: NodeId, frame: Frame) -> Option<
    (TransferHeader, TailByte),
> {
    if frame.data@.len() == 0 {
        None
    } else {
        let tail = TailByte::spec_parse(frame.data@.last());
        match spec_parse_can_id(frame.id.spec_bits()) {
            Err(_) => None,
            Ok(header) => {
                let elsewhere = match header.kind {
                    TransferKindHeader::Message(_) => false,
                    TransferKindHeader::Request(s) => s.destination != local,
                    TransferKindHeader::Response(s) => s.destination != local,
                };
                if elsewhere {
                    None
                } else if header.spec_is_anonymous() && !(tail.toggle && tail.start && tail.end) {
                    None
                } else {
                    Some((header, tail))
                }
            },
        }
    }
}

/// True if a frame is a well-formed service transfer addressed to a node other than `local`;
/// the receiver drops such a frame without counting an error
pub open(crate) spec fn addressed_elsewhere(local: NodeId, frame: Frame) -> bool {
    &&& frame.data@.len() > 0
    &&& spec_parse_can_id(frame.id.spec_bits()) matches Ok(header)
    &&& match header.kind {
        TransferKindHeader::Message(_) => false,
        TransferKindHeader::Request(s) => s.destination != local,
        TransferKindHeader::Response(s) => s.destination != local,
    }
}

/// Finds the subscription on a port
fn find_subscription(subs: &Vec<Subscription>, port: u16) -> (r: Option<usize>)
    ensures
        r is None ==> no_port(subs@, port),
        r matches Some(i) ==> i < subs@.len() && subs@[i as int].port_id == port,
{
    let mut i: usize = 0;
    while i < subs.len()
        invariant
            i <= subs@.len(),
            forall|j: int| 0 <= j < i ==> (#[trigger] subs@[j]).port_id != port,
        decreases subs@.len() - i,
    {
        if subs[i].port_id == port {
            return Some(i);
        }
        i = i + 1;
    }
    None
}

/// Hands a checked frame to the subscription on its port, if there is one
fn accept_in(
    subs: &mut Vec<Subscription>,
    header: TransferHeader,
    tail: TailByte,
    frame: &Frame,
) -> (r: Option<(usize, SessionOutcome)>)
    requires
        list_wf(old(subs)@),
        frame.data@.len() >= 1,
        tail == TailByte::spec_parse(frame.data@.last()),
    ensures
        list_wf(final(subs)@),
        final(subs)@.len() == old(subs)@.len(),
        r is None ==> final(subs)@ == old(subs)@ && no_port(old(subs)@, header.kind.spec_port()),
        r matches Some((i, so)) ==> {
            &&& i < old(subs)@.len()
            &&& old(subs)@[i as int].port_id == header.kind.spec_port()
            &&& forall|j: int|
                0 <= j < old(subs)@.len() && j != i ==> #[trigger] final(subs)@[j] == old(subs)@[j]
            &&& same_settings(old(subs)@[i as int], final(subs)@[i as int])
            &&& forall|n: int|
                0 <= n < old(subs)@[i as int].sessions@.len() && n != header.source.spec_value()
                    ==> #[trigger] final(subs)@[i as int].sessions@[n] == old(
                    subs)@[i as int].sessions@[n]
            &&& session_step(
                old(subs)@[i as int].sessions@[header.source.spec_value() as int],
                final(subs)@[i as int].sessions@[header.source.spec_value() as int],
                header,
                tail,
                *frame,
                old(subs)@[i as int].payload_size_max,
                old(subs)@[i as int].timeout,
                so,
            )
        },
{
    let port = header.kind.port_id();
    match find_subscription(subs, port) {
        None => None,
        Some(i) => {
            let outcome = subs[i].accept_frame(header, tail, frame);
            assert forall|a: int, b: int|
                0 <= a < subs@.len() && 0 <= b < subs@.len() && a != b implies (
                #[trigger] subs@[a]).port_id != (#[trigger] subs@[b]).port_id by {
                assert(old(subs)@[a].port_id != old(subs)@[b].port_id);
            }
            Some((i, outcome))
        },
    }
}

/// Removes every expired session from a list of subscriptions
fn clean_sessions_from_subscriptions(subs: &mut Vec<Subscription>, now: Instant)
    requires
        list_wf(old(subs)@),
    ensures
        list_wf(final(subs)@),
        expired_list(old(subs)@, final(subs)@, now),
        fresh_list(final(subs)@, now),
{
    let ghost start = subs@;
    let mut i: usize = 0;
    while i < subs.len()
        invariant
            i <= subs@.len(),
            subs@.len() == start.len(),
            list_wf(start),
            forall|j: int| 0 <= j < i ==> expired_sub(start[j], #[trigger] subs@[j], now),
            forall|j: int| 0 <= j < i ==> (#[trigger] subs@[j]).wf(),
            forall|j: int| i <= j < subs@.len() ==> #[trigger] subs@[j] == start[j],
        decreases subs@.len() - i,
    {
        subs[i].clean_expired(now);
        i = i + 1;
    }
    assert forall|a: int, b: int|
        0 <= a < subs@.len() && 0 <= b < subs@.len() && a != b implies (
        #[trigger] subs@[a]).port_id != (#[trigger] subs@[b]).port_id by {
        assert(expired_sub(start[a], subs@[a], now));
        assert(expired_sub(start[b], subs@[b], now));
        assert(start[a].port_id != start[b].port_id);
    }
    proof {
        lemma_expired_list_fresh(subs@, now);
    }
}

/// Handles subscriptions and assembles incoming frames into transfers
#[derive(Debug)]
pub struct Receiver {
    /// Subscriptions for messages
    pub(crate) subscriptions_message: Vec<Subscription>,
    /// Subscriptions for service responses
    pub(crate) subscriptions_response: Vec<Subscription>,
    /// Subscriptions for service requests
    pub(crate) subscriptions_request: Vec<Subscription>,
    /// The ID of this node
    pub(crate) id: NodeId,
    /// Number of transfers successfully received
    pub(crate) transfer_count: u64,
    /// Number of transfers that could not be received
    pub(crate) error_count: u64,
}

impl Receiver {
    /// The subscriptions for one kind of transfer
    pub open(crate) spec fn subscriptions(self, kind: TransferKind) -> Seq<Subscription> {
        match kind {
            TransferKind::Message => self.subscriptions_message@,
            TransferKind::Response => self.subscriptions_response@,
            TransferKind::Request => self.subscriptions_request@,
        }
    }

    /// Well-formed: at most one subscription per kind and port, each well-formed
    pub open(crate) spec fn wf(self) -> bool {
        &&& list_wf(self.subscriptions_message@)
        &&& list_wf(self.subscriptions_response@)
        &&& list_wf(self.subscriptions_request@)
    }

    /// The ID of this node
    pub open(crate) spec fn spec_id(self) -> NodeId {
        self.id
    }

    /// The number of transfers received
    pub open(crate) spec fn spec_transfer_count(self) -> u64 {
        self.transfer_count
    }

    /// The number of transfers that could not be received
    pub open(crate) spec fn spec_error_count(self) -> u64 {
        self.error_count
    }

    /// True if no session of any subscription has expired at `now`
    pub open(crate) spec fn no_expired_sessions(self, now: Instant) -> bool {
        forall|k: TransferKind| fresh_list(#[trigger] self.subscriptions(k), now)
    }

    /// Creates a receiver with no subscriptions
    ///
    /// id: The ID of this node. This is used to filter incoming service requests and responses.
    pub fn new(id: NodeId) -> (r: Receiver)
        ensures
            r.wf(),
            r.spec_id() == id,
            r.spec_transfer_count() == 0,
            r.spec_error_count() == 0,
            forall|k: TransferKind| r.subscriptions(k).len() == 0,
    {
        Receiver {
            subscriptions_message: Vec::new(),
            subscriptions_response: Vec::new(),
            subscriptions_request: Vec::new(),
            id,
            transfer_count: 0,
            error_count: 0,
        }
    }

    /// Runs basic checks on an incoming frame. Returns the header and tail byte if the frame
    /// is usable.
    fn frame_sanity_check(local_id: NodeId, frame: &Frame) -> (r: Option<(TransferHeader, TailByte)>)
        ensures
            r == spec_sanity_check(local_id, *frame),
    {
        // A frame must have a tail byte
        if frame.data.len() == 0 {
            return None;
        }
        let tail = TailByte::parse(frame.data[frame.data.len() - 1]);
        let header = match parse_can_id(frame.id) {
            Ok(header) => header,
            Err(_) => return None,
        };
        let elsewhere = match header.kind {
            TransferKindHeader::Message(_) => false,
            TransferKindHeader::Request(s) => s.destination != local_id,
            TransferKindHeader::Response(s) => s.destination != local_id,
        };
        if elsewhere {
            // A service transfer to some other node
            return None;
        }
        if header.is_anonymous() && !(tail.toggle && tail.start && tail.end) {
            // Anonymous message transfers must fit into one frame
            return None;
        }
        Some((header, tail))
    }

    /// Returns true if a frame is a service transfer addressed to another node
    fn is_addressed_elsewhere(local_id: NodeId, frame: &Frame) -> (r: bool)
        ensures
            r == addressed_elsewhere(local_id, *frame),
    {
        if frame.data.len() == 0 {
            return false;
        }
        match parse_can_id(frame.id) {
            Ok(header) => match header.kind {
                TransferKindHeader::Message(_) => false,
                TransferKindHeader::Request(s) => s.destination != local_id,
                TransferKindHeader::Response(s) => s.destination != local_id,
            },
            Err(_) => false,
        }
    }

    fn increment_transfer_count(&mut self)
        ensures
            final(self).transfer_count == wrapping_inc(old(self).transfer_count),
            final(self).error_count == old(self).error_count,
            final(self).id == old(self).id,
            final(self).subscriptions_message == old(self).subscriptions_message,
            final(self).subscriptions_response == old(self).subscriptions_response,
            final(self).subscriptions_request == old(self).subscriptions_request,
    {
        self.transfer_count = self.transfer_count.wrapping_add(1);
    }

    fn increment_error_count(&mut self)
        ensures
            final(self).error_count == wrapping_inc(old(self).error_count),
            final(self).transfer_count == old(self).transfer_count,
            final(self).id == old(self).id,
            final(self).subscriptions_message == old(self).subscriptions_message,
            final(self).subscriptions_response == old(self).subscriptions_response,
            final(self).subscriptions_request == old(self).subscriptions_request,
    {
        self.error_count = self.error_count.wrapping_add(1);
    }

    /// Removes every session whose first frame is more than its subscription's timeout
    /// before `now`
    fn clean_expired_sessions(&mut self, now: Instant)
        requires
            old(self).wf(),
        ensures
            final(self).wf(),
            final(self).id == old(self).id,
            final(self).transfer_count == old(self).transfer_count,
            final(self).error_count == old(self).error_count,
            forall|k: TransferKind|
                expired_list(#[trigger] old(self).subscriptions(k), final(self).subscriptions(k), now),
    {
        clean_sessions_from_subscriptions(&mut self.subscriptions_message, now);
        clean_sessions_from_subscriptions(&mut self.subscriptions_request, now);
        clean_sessions_from_subscriptions(&mut self.subscriptions_response, now);
    }

    /// Handles an incoming CAN or CAN FD frame
    ///
    /// Expired sessions are removed first, using the frame timestamp as the current time. If
    /// this frame is the last frame in a transfer, this function returns the completed transfer,
    /// whose payload holds no tail bytes or CRC and whose timestamp is that of its first frame.
    ///
    /// This function returns an error if memory for a new session could not be allocated. Other
    /// unexpected situations, such as duplicate or malformed frames, do not cause this function
    /// to return an error but do increment the error counter. Valid frames on subjects that this
    /// receiver is not subscribed to are silently ignored.
    pub fn accept(&mut self, frame: Frame) -> (r: Result<Option<Transfer>, OutOfMemoryError>)
        requires
            old(self).wf(),
        ensures
            final(self).wf(),
            final(self).spec_id() == old(self).spec_id(),
            final(self).no_expired_sessions(frame.timestamp),
            accept_step(*old(self), *final(self), frame, r),
    {
        let now = frame.timestamp;
        self.clean_expired_sessions(now);
        let ghost mid = *self;

        let (header, tail) = match Self::frame_sanity_check(self.id, &frame) {
            Some(checked) => checked,
            None => {
                // Can't use this frame. A service transfer to some other node is no error.
                if !Self::is_addressed_elsewhere(self.id, &frame) {
                    self.increment_error_count();
                }
                proof {
                    lemma_expired_list_fresh(mid.subscriptions_message@, now);
                    lemma_expired_list_fresh(mid.subscriptions_response@, now);
                    lemma_expired_list_fresh(mid.subscriptions_request@, now);
                    assert(forall|k: TransferKind|
                        expired_list(#[trigger] old(self).subscriptions(k), self.subscriptions(k), now));
                    assert forall|k: TransferKind| fresh_list(#[trigger] self.subscriptions(k), now) by {
                        assert(expired_list(old(self).subscriptions(k), self.subscriptions(k), now));
                    }
                }
                return Ok(None);
            },
        };
        let kind = header.kind.kind();
        let outcome = match kind {
            TransferKind::Message => accept_in(
                &mut self.subscriptions_message,
                header,
                tail,
                &frame,
            ),
            TransferKind::Response => accept_in(
                &mut self.subscriptions_response,
                header,
                tail,
                &frame,
            ),
            TransferKind::Request => accept_in(
                &mut self.subscriptions_request,
                header,
                tail,
                &frame,
            ),
        };
        let ghost o = outcome;
        proof {
            use_type_invariant(&header.source);
            lemma_kind_step(
                old(self).subscriptions(kind),
                mid.subscriptions(kind),
                self.subscriptions(kind),
                header,
                tail,
                frame,
                o,
            );
            lemma_expired_list_fresh(mid.subscriptions(kind), now);
            assert forall|k: TransferKind| k != kind implies expired_list(
                #[trigger] old(self).subscriptions(k),
                self.subscriptions(k),
                now,
            ) && fresh_list(self.subscriptions(k), now) by {
                lemma_expired_list_fresh(mid.subscriptions(k), now);
            }
            assert forall|k: TransferKind| fresh_list(#[trigger] self.subscriptions(k), now) by {
                if k != kind {
                    assert(expired_list(old(self).subscriptions(k), self.subscriptions(k), now));
                }
            }
        }
        let ghost after = *self;
        let r = match outcome {
            Some((_, SessionOutcome::Complete(transfer))) => {
                self.increment_transfer_count();
                Ok(Some(transfer))
            },
            Some((_, SessionOutcome::NoMemory)) => {
                self.increment_error_count();
                Err(OutOfMemoryError)
            },
            Some((_, SessionOutcome::Dropped)) | Some((_, SessionOutcome::PayloadNoMemory)) => {
                self.increment_error_count();
                Ok(None)
            },
            _ => Ok(None),
        };
        proof {
            assert forall|k: TransferKind| #[trigger] self.subscriptions(k) == after.subscriptions(
                k,
            ) by {
                match k {
                    TransferKind::Message => {},
                    TransferKind::Response => {},
                    TransferKind::Request => {},
                }
            }
            assert(kind_step(
                old(self).subscriptions(kind),
                self.subscriptions(kind),
                header,
                tail,
                frame,
                o,
            ));
            assert(r == result_of(o));
        }
        r
    }
}

/// True if no session in a list of subscriptions has expired at `now`
pub(crate) open spec fn fresh_list(subs: Seq<Subscription>, now: Instant) -> bool {
    forall|i: int, n: int|
        0 <= i < subs.len() && 0 <= n < subs[i].sessions@.len() ==> !slot_expired(
            #[trigger] subs[i].sessions@[n],
            subs[i].timeout,
            now,
        )
}

/// How the receiver changes, and what it returns, when `frame` arrives
///
/// Every expired session is removed. A frame that fails the sanity checks counts as an error,
/// unless it is a service transfer addressed to another node, which is dropped silently.
/// Otherwise it goes to the subscription on its kind and port, if any, and only the session of
/// its source node in that subscription can change beyond expiry.
pub open(crate) spec fn accept_step(
    old: Receiver,
    new: Receiver,
    frame: Frame,
    r: Result<Option<Transfer>, OutOfMemoryError>,
) -> bool {
    let now = frame.timestamp;
    match spec_sanity_check(old.id, frame) {
        None => {
            &&& r == Ok::<Option<Transfer>, OutOfMemoryError>(None)
            &&& new.error_count == if addressed_elsewhere(old.id, frame) {
                old.error_count
            } else {
                wrapping_inc(old.error_count)
            }
            &&& new.transfer_count == old.transfer_count
            &&& forall|k: TransferKind|
                expired_list(#[trigger] old.subscriptions(k), new.subscriptions(k), now)
        },
        Some((header, tail)) => {
            let kind = header.kind.spec_kind();
            &&& forall|k: TransferKind|
                k != kind ==> expired_list(#[trigger] old.subscriptions(k), new.subscriptions(k), now)
            &&& exists|o: Option<(usize, SessionOutcome)>|
                {
                    &&& #[trigger] kind_step(
                        old.subscriptions(kind),
                        new.subscriptions(kind),
                        header,
                        tail,
                        frame,
                        o,
                    )
                    &&& r == result_of(o)
                    &&& new.error_count == if is_error(o) {
                        wrapping_inc(old.error_count)
                    } else {
                        old.error_count
                    }
                    &&& new.transfer_count == if is_transfer(o) {
                        wrapping_inc(old.transfer_count)
                    } else {
                        old.transfer_count
                    }
                }
        },
    }
}

/// After expiry, no session of a list has expired.
proof fn lemma_expired_list_fresh(subs: Seq<Subscription>, now: Instant)
    ensures
        forall|old: Seq<Subscription>| expired_list(old, subs, now) ==> #[trigger] fresh_list(subs, now),
{
    assert forall|old: Seq<Subscription>| expired_list(old, subs, now) implies #[trigger] fresh_list(
        subs,
        now,
    ) by {
        assert forall|i: int, n: int|
            0 <= i < subs.len() && 0 <= n < subs[i].sessions@.len() implies !slot_expired(
            #[trigger] subs[i].sessions@[n],
            subs[i].timeout,
            now,
        ) by {
            assert(expired_sub(old[i], subs[i], now));
        }
    }
}

/// A session that survives a frame has not expired at the frame's timestamp.
proof fn lemma_step_fresh(
    old_slot: Option<Box<Session>>,
    new_slot: Option<Box<Session>>,
    header: TransferHeader,
    tail: TailByte,
    frame: Frame,
    max: usize,
    timeout: Duration,
    o: SessionOutcome,
)
    requires
        !slot_expired(old_slot, timeout, frame.timestamp),
        session_step(old_slot, new_slot, header, tail, frame, max, timeout, o),
    ensures
        !slot_expired(new_slot, timeout, frame.timestamp),
{
}

/// Expiry followed by handing the frame to the subscription of its port is one `kind_step`,
/// and leaves no expired session.
proof fn lemma_kind_step(
    old: Seq<Subscription>,
    mid: Seq<Subscription>,
    new: Seq<Subscription>,
    header: TransferHeader,
    tail: TailByte,
    frame: Frame,
    o: Option<(usize, SessionOutcome)>,
)
    requires
        expired_list(old, mid, frame.timestamp),
        new.len() == mid.len(),
        o is None ==> new == mid && no_port(mid, header.kind.spec_port()),
        o matches Some((i, so)) ==> {
            &&& i < mid.len()
            &&& mid[i as int].port_id == header.kind.spec_port()
            &&& forall|j: int| 0 <= j < mid.len() && j != i ==> #[trigger] new[j] == mid[j]
            &&& same_settings(mid[i as int], new[i as int])
            &&& forall|n: int|
                0 <= n < mid[i as int].sessions@.len() && n != header.source.spec_value()
                    ==> #[trigger] new[i as int].sessions@[n] == mid[i as int].sessions@[n]
            &&& session_step(
                mid[i as int].sessions@[header.source.spec_value() as int],
                new[i as int].sessions@[header.source.spec_value() as int],
                header,
                tail,
                frame,
                mid[i as int].payload_size_max,
                mid[i as int].timeout,
                so,
            )
        },
        forall|i: int| 0 <= i < mid.len() ==> (#[trigger] mid[i]).wf(),
        0 <= header.source.spec_value() < 128,
    ensures
        kind_step(old, new, header, tail, frame, o),
        fresh_list(new, frame.timestamp),
{
    let now = frame.timestamp;
    lemma_expired_list_fresh(mid, now);
    assert(fresh_list(mid, now));
    match o {
        None => {
            assert forall|i: int| 0 <= i < old.len() implies (#[trigger] old[i]).port_id
                != header.kind.spec_port() by {
                assert(expired_sub(old[i], mid[i], now));
            }
        },
        Some((i, so)) => {
            let src = header.source.spec_value() as int;
            assert(expired_sub(old[i as int], mid[i as int], now));
            assert forall|j: int| 0 <= j < old.len() && j != i implies expired_sub(
                old[j],
                #[trigger] new[j],
                now,
            ) by {
                assert(expired_sub(old[j], mid[j], now));
                assert(new[j] == mid[j]);
            }
            assert(mid[i as int].sessions@[src] == expire_slot(
                old[i as int].sessions@[src],
                old[i as int].timeout,
                now,
            ));
            lemma_step_fresh(
                mid[i as int].sessions@[src],
                new[i as int].sessions@[src],
                header,
                tail,
                frame,
                mid[i as int].payload_size_max,
                mid[i as int].timeout,
                so,
            );
            assert forall|a: int, n: int|
                0 <= a < new.len() && 0 <= n < new[a].sessions@.len() implies !slot_expired(
                #[trigger] new[a].sessions@[n],
                new[a].timeout,
                now,
            ) by {
                if a != i {
                    assert(new[a] == mid[a]);
                } else if n != src {
                    assert(new[a].sessions@[n] == mid[a].sessions@[n]);
                }
            }
        },
    }
}

/// `new` is `old` without its subscription on `port`, if it had one
pub open(crate) spec fn removed_port(old: Seq<Subscription>, new: Seq<Subscription>, port: u16) -> bool {
    ||| (no_port(old, port) && new == old)
    ||| exists|i: int| 0 <= i < old.len() && old[i].port_id == port && new == old.remove(i)
}

/// True if `s` is a new subscription on `port` with these limits and no sessions
pub open(crate) spec fn fresh_subscription(
    s: Subscription,
    port: u16,
    payload_size_max: usize,
    timeout: Duration,
) -> bool {
    &&& s.port_id == port
    &&& s.payload_size_max == payload_size_max
    &&& s.timeout == timeout
    &&& s.sessions@.len() == RX_SESSIONS_PER_SUBSCRIPTION
    &&& forall|n: int| 0 <= n < s.sessions@.len() ==> #[trigger] s.sessions@[n] is None
}

/// `new` is `old` with a new subscription on `port`, without sessions: in the place of the one
/// that was on the port, which always succeeds; or else at the end of the list, which fails and
/// leaves the list unchanged if memory for it could not be allocated
pub open(crate) spec fn subscribed(
    old: Seq<Subscription>,
    new: Seq<Subscription>,
    port: u16,
    payload_size_max: usize,
    timeout: Duration,
    r: Result<(), OutOfMemoryError>,
) -> bool {
    if no_port(old, port) {
        &&& r is Err ==> new == old
        &&& r is Ok ==> {
            &&& new.len() == old.len() + 1
            &&& new.drop_last() == old
            &&& fresh_subscription(new.last(), port, payload_size_max, timeout)
        }
    } else {
        &&& r is Ok
        &&& new.len() == old.len()
        &&& exists|i: int|
            0 <= i < old.len() && old[i].port_id == port && fresh_subscription(
                #[trigger] new[i],
                port,
                payload_size_max,
                timeout,
            ) && new == old.update(i, new[i])
    }
}

/// Removes the subscription on a port from a list, if there is one
fn remove_port(subs: &mut Vec<Subscription>, port: u16)
    requires
        list_wf(old(subs)@),
    ensures
        list_wf(final(subs)@),
        no_port(final(subs)@, port),
        removed_port(old(subs)@, final(subs)@, port),
{
    match find_subscription(subs, port) {
        None => {},
        Some(i) => {
            let ghost before = subs@;
            let _removed = subs.remove(i);
            assert(subs@ == before.remove(i as int));
            assert forall|j: int| 0 <= j < subs@.len() implies (#[trigger] subs@[j]).port_id
                != port by {
                if j < i {
                    assert(subs@[j] == before[j]);
                } else {
                    assert(subs@[j] == before[j + 1]);
                }
            }
            assert forall|a: int, b: int|
                0 <= a < subs@.len() && 0 <= b < subs@.len() && a != b implies (
                #[trigger] subs@[a]).port_id != (#[trigger] subs@[b]).port_id by {
                let a2 = if a < i {
                    a
                } else {
                    a + 1
                };
                let b2 = if b < i {
                    b
                } else {
                    b + 1
                };
                assert(subs@[a] == before[a2]);
                assert(subs@[b] == before[b2]);
            }
            assert forall|j: int| 0 <= j < subs@.len() implies (#[trigger] subs@[j]).wf() by {
                if j < i {
                    assert(subs@[j] == before[j]);
                } else {
                    assert(subs@[j] == before[j + 1]);
                }
            }
        },
    }
}

/// Replaces the subscription on a port in a list with a new one
fn subscribe_in(
    subs: &mut Vec<Subscription>,
    port: u16,
    payload_size_max: usize,
    timeout: Duration,
) -> (r: Result<(), OutOfMemoryError>)
    requires
        list_wf(old(subs)@),
    ensures
        list_wf(final(subs)@),
        subscribed(old(subs)@, final(subs)@, port, payload_size_max, timeout, r),
{
    let subscription = Subscription::new(timeout, payload_size_max, port);
    assert forall|n: int| 0 <= n < subscription.sessions@.len() implies #[trigger] subscription.sessions@[n]
        is None by {
        assert(subscription.spec_slot(n) is None);
    }
    let ghost before = subs@;
    match find_subscription(subs, port) {
        Some(i) => {
            // Replace the existing subscription in its place, which needs no memory
            subs.set(i, subscription);
            assert forall|a: int, b: int|
                0 <= a < subs@.len() && 0 <= b < subs@.len() && a != b implies (
                #[trigger] subs@[a]).port_id != (#[trigger] subs@[b]).port_id by {
                assert(subs@[a].port_id == before[a].port_id);
                assert(subs@[b].port_id == before[b].port_id);
            }
            assert forall|j: int| 0 <= j < subs@.len() implies (#[trigger] subs@[j]).wf() by {
                if j != i {
                    assert(subs@[j] == before[j]);
                }
            }
            assert(subs@ == before.update(i as int, subs@[i as int]));
            Ok(())
        },
        None => {
            match try_push(subs, subscription) {
                Ok(()) => {
                    assert(subs@.drop_last() == before);
                    assert forall|a: int, b: int|
                        0 <= a < subs@.len() && 0 <= b < subs@.len() && a != b implies (
                        #[trigger] subs@[a]).port_id != (#[trigger] subs@[b]).port_id by {
                        if a < before.len() && b < before.len() {
                            assert(subs@[a] == before[a]);
                            assert(subs@[b] == before[b]);
                        } else if a < before.len() {
                            assert(subs@[a] == before[a]);
                        } else {
                            assert(subs@[b] == before[b]);
                        }
                    }
                    assert forall|j: int| 0 <= j < subs@.len() implies (#[trigger] subs@[j]).wf() by {
                        if j < before.len() {
                            assert(subs@[j] == before[j]);
                        }
                    }
                    Ok(())
                },
                Err(_) => Err(OutOfMemoryError),
            }
        },
    }
}

impl Receiver {
    /// Subscribes to one kind of transfer on one port, replacing any subscription on it
    fn subscribe(
        &mut self,
        kind: TransferKind,
        port: u16,
        payload_size_max: usize,
        timeout: Duration,
    ) -> (r: Result<(), OutOfMemoryError>)
        requires
            old(self).wf(),
        ensures
            final(self).wf(),
            final(self).id == old(self).id,
            final(self).transfer_count == old(self).transfer_count,
            final(self).error_count == old(self).error_count,
            subscribed(
                old(self).subscriptions(kind),
                final(self).subscriptions(kind),
                port,
                payload_size_max,
                timeout,
                r,
            ),
            forall|k: TransferKind|
                k != kind ==> #[trigger] final(self).subscriptions(k) == old(self).subscriptions(k),
    {
        match kind {
            TransferKind::Message => subscribe_in(
                &mut self.subscriptions_message,
                port,
                payload_size_max,
                timeout,
            ),
            TransferKind::Response => subscribe_in(
                &mut self.subscriptions_response,
                port,
                payload_size_max,
                timeout,
            ),
            TransferKind::Request => subscribe_in(
                &mut self.subscriptions_request,
                port,
                payload_size_max,
                timeout,
            ),
        }
    }

    /// Removes the subscription to one kind of transfer on one port, if there is one
    fn unsubscribe(&mut self, kind: TransferKind, port: u16)
        requires
            old(self).wf(),
        ensures
            final(self).wf(),
            final(self).id == old(self).id,
            final(self).transfer_count == old(self).transfer_count,
            final(self).error_count == old(self).error_count,
            removed_port(old(self).subscriptions(kind), final(self).subscriptions(kind), port),
            forall|k: TransferKind|
                k != kind ==> #[trigger] final(self).subscriptions(k) == old(self).subscriptions(k),
    {
        match kind {
            TransferKind::Message => remove_port(&mut self.subscriptions_message, port),
            TransferKind::Response => remove_port(&mut self.subscriptions_response, port),
            TransferKind::Request => remove_port(&mut self.subscriptions_request, port),
        }
    }

    /// Subscribes to messages on a subject
    ///
    /// This enables incoming transfers from all nodes on the subject. Transfers with more than
    /// `payload_size_max` payload bytes are dropped, and so are transfers whose last frame
    /// arrives more than `timeout` after the first. Any earlier subscription to the subject is
    /// replaced.
    pub fn subscribe_message(
        &mut self,
        subject: SubjectId,
        payload_size_max: usize,
        timeout: Duration,
    ) -> (r: Result<(), OutOfMemoryError>)
        requires
            old(self).wf(),
        ensures
            final(self).wf(),
            final(self).spec_id() == old(self).spec_id(),
            final(self).spec_transfer_count() == old(self).spec_transfer_count(),
            final(self).spec_error_count() == old(self).spec_error_count(),
            subscribed(
                old(self).subscriptions(TransferKind::Message),
                final(self).subscriptions(TransferKind::Message),
                subject.spec_value(),
                payload_size_max,
                timeout,
                r,
            ),
            forall|k: TransferKind|
                k != TransferKind::Message ==> #[trigger] final(self).subscriptions(k) == old(
                    self,
                ).subscriptions(k),
    {
        self.subscribe(TransferKind::Message, subject.to_u16(), payload_size_max, timeout)
    }

    /// Unsubscribes from messages on a subject
    pub fn unsubscribe_message(&mut self, subject: SubjectId)
        requires
            old(self).wf(),
        ensures
            final(self).wf(),
            final(self).spec_id() == old(self).spec_id(),
            final(self).spec_transfer_count() == old(self).spec_transfer_count(),
            final(self).spec_error_count() == old(self).spec_error_count(),
            removed_port(
                old(self).subscriptions(TransferKind::Message),
                final(self).subscriptions(TransferKind::Message),
                subject.spec_value(),
            ),
            forall|k: TransferKind|
                k != TransferKind::Message ==> #[trigger] final(self).subscriptions(k) == old(
                    self,
                ).subscriptions(k),
    {
        self.unsubscribe(TransferKind::Message, subject.to_u16())
    }

    /// Subscribes to requests for a service
    ///
    /// This enables incoming service request transfers from all nodes for the service, with
    /// the same limits as `subscribe_message`.
    pub fn subscribe_request(
        &mut self,
        service: ServiceId,
        payload_size_max: usize,
        timeout: Duration,
    ) -> (r: Result<(), OutOfMemoryError>)
        requires
            old(self).wf(),
        ensures
            final(self).wf(),
            final(self).spec_id() == old(self).spec_id(),
            final(self).spec_transfer_count() == old(self).spec_transfer_count(),
            final(self).spec_error_count() == old(self).spec_error_count(),
            subscribed(
                old(self).subscriptions(TransferKind::Request),
                final(self).subscriptions(TransferKind::Request),
                service.spec_value(),
                payload_size_max,
                timeout,
                r,
            ),
            forall|k: TransferKind|
                k != TransferKind::Request ==> #[trigger] final(self).subscriptions(k) == old(
                    self,
                ).subscriptions(k),
    {
        self.subscribe(TransferKind::Request, service.to_u16(), payload_size_max, timeout)
    }

    /// Unsubscribes from requests for a service
    pub fn unsubscribe_request(&mut self, service: ServiceId)
        requires
            old(self).wf(),
        ensures
            final(self).wf(),
            final(self).spec_id() == old(self).spec_id(),
            final(self).spec_transfer_count() == old(self).spec_transfer_count(),
            final(self).spec_error_count() == old(self).spec_error_count(),
            removed_port(
                old(self).subscriptions(TransferKind::Request),
                final(self).subscriptions(TransferKind::Request),
                service.spec_value(),
            ),
            forall|k: TransferKind|
                k != TransferKind::Request ==> #[trigger] final(self).subscriptions(k) == old(
                    self,
                ).subscriptions(k),
    {
        self.unsubscribe(TransferKind::Request, service.to_u16())
    }

    /// Subscribes to responses for a service
    ///
    /// This enables incoming service response transfers from all nodes for the service, with
    /// the same limits as `subscribe_message`.
    pub fn subscribe_response(
        &mut self,
        service: ServiceId,
        payload_size_max: usize,
        timeout: Duration,
    ) -> (r: Result<(), OutOfMemoryError>)
        requires
            old(self).wf(),
        ensures
            final(self).wf(),
            final(self).spec_id() == old(self).spec_id(),
            final(self).spec_transfer_count() == old(self).spec_transfer_count(),
            final(self).spec_error_count() == old(self).spec_error_count(),
            subscribed(
                old(self).subscriptions(TransferKind::Response),
                final(self).subscriptions(TransferKind::Response),
                service.spec_value(),
                payload_size_max,
                timeout,
                r,
            ),
            forall|k: TransferKind|
                k != TransferKind::Response ==> #[trigger] final(self).subscriptions(k) == old(
                    self,
                ).subscriptions(k),
    {
        self.subscribe(TransferKind::Response, service.to_u16(), payload_size_max, timeout)
    }

    /// Unsubscribes from responses for a service
    pub fn unsubscribe_response(&mut self, service: ServiceId)
        requires
            old(self).wf(),
        ensures
            final(self).wf(),
            final(self).spec_id() == old(self).spec_id(),
            final(self).spec_transfer_count() == old(self).spec_transfer_count(),
            final(self).spec_error_count() == old(self).spec_error_count(),
            removed_port(
                old(self).subscriptions(TransferKind::Response),
                final(self).subscriptions(TransferKind::Response),
                service.spec_value(),
            ),
            forall|k: TransferKind|
                k != TransferKind::Response ==> #[trigger] final(self).subscriptions(k) == old(
                    self,
                ).subscriptions(k),
    {
        self.unsubscribe(TransferKind::Response, service.to_u16())
    }

    /// Returns the number of transfers successfully received
    pub fn transfer_count(&self) -> (r: u64)
        ensures
            r == self.spec_transfer_count(),
    {
        self.transfer_count
    }

    /// Returns the number of transfers that could not be received correctly
    ///
    /// Errors include failure to allocate memory (when handling incoming frames only), missing
    /// frames, and malformed frames.
    pub fn error_count(&self) -> (r: u64)
        ensures
            r == self.spec_error_count(),
    {
        self.error_count
    }
}

/// A frame of a transfer in progress whose toggle bit differs from the one its session
/// expects ends the session, and the outcome is one that the receiver counts as one error,
/// whatever else the frame holds (once it fits the payload budget and the timeout).
pub proof fn lemma_toggle_mismatch_drops_session(
    old_slot: Option<Box<Session>>,
    new_slot: Option<Box<Session>>,
    header: TransferHeader,
    tail: TailByte,
    frame: Frame,
    max: usize,
    timeout: Duration,
    o: SessionOutcome,
)
    requires
        session_step(old_slot, new_slot, header, tail, frame, max, timeout, o),
        old_slot matches Some(s) && s.spec_transfer_id() == tail.transfer_id
            && s.spec_expected_toggle() != tail.toggle && s.spec_bytes().len() + frame_payload(
            frame,
        ).len() <= max && frame.timestamp.spec_duration_since(s.spec_transfer_timestamp())
            <= timeout.micros,
    ensures
        o is Dropped,
        new_slot is None,
{
}

/// A frame that arrives more than the timeout after the first frame of its source's session
/// finds that session removed, and without the start bit it is ignored: no session remains.
pub proof fn lemma_late_frame_ignored(
    old_slot: Option<Box<Session>>,
    new_slot: Option<Box<Session>>,
    header: TransferHeader,
    tail: TailByte,
    frame: Frame,
    max: usize,
    timeout: Duration,
    o: SessionOutcome,
)
    requires
        slot_expired(old_slot, timeout, frame.timestamp),
        !tail.start,
        session_step(
            expire_slot(old_slot, timeout, frame.timestamp),
            new_slot,
            header,
            tail,
            frame,
            max,
            timeout,
            o,
        ),
    ensures
        o is Ignored,
        new_slot is None,
{
}

/// Sessions of other sources are not disturbed by a frame: in every subscription of the
/// frame's kind, the session of any other node changes only by expiring.
pub proof fn lemma_other_sources_untouched(
    old: Receiver,
    new: Receiver,
    frame: Frame,
    r: Result<Option<Transfer>, OutOfMemoryError>,
    header: TransferHeader,
    tail: TailByte,
    i: int,
    n: int,
)
    requires
        old.wf(),
        accept_step(old, new, frame, r),
        spec_sanity_check(old.spec_id(), frame) == Some((header, tail)),
        0 <= i < old.subscriptions(header.kind.spec_kind()).len(),
        0 <= n < RX_SESSIONS_PER_SUBSCRIPTION,
        n != header.source.spec_value(),
    ensures
        new.subscriptions(header.kind.spec_kind())[i].spec_slot(n) == expire_slot(
            old.subscriptions(header.kind.spec_kind())[i].spec_slot(n),
            old.subscriptions(header.kind.spec_kind())[i].spec_timeout(),
            frame.timestamp,
        ),
{
    let kind = header.kind.spec_kind();
    let l = old.subscriptions(kind);
    let l2 = new.subscriptions(kind);
    assert(l[i].wf()) by {
        match kind {
            TransferKind::Message => {},
            TransferKind::Response => {},
            TransferKind::Request => {},
        }
    }
    let o = choose|o: Option<(usize, SessionOutcome)>|
        {
            &&& #[trigger] kind_step(l, l2, header, tail, frame, o)
            &&& r == result_of(o)
            &&& new.error_count == if is_error(o) {
                wrapping_inc(old.error_count)
            } else {
                old.error_count
            }
            &&& new.transfer_count == if is_transfer(o) {
                wrapping_inc(old.transfer_count)
            } else {
                old.transfer_count
            }
        };
    assert(kind_step(l, l2, header, tail, frame, o));
    match o {
        None => {
            assert(expired_sub(l[i], l2[i], frame.timestamp));
        },
        Some((j, so)) => {
            if j != i {
                assert(expired_sub(l[i], l2[i], frame.timestamp));
            }
        },
    }
}

/// A transfer abandoned at one of its frames stays abandoned: if frame `k` continues the
/// session of its source but has the wrong toggle bit or would exceed the payload budget, that
/// frame ends the session with the one outcome counted as an error (`Dropped`), and every later
/// frame of the transfer, which lacks the start bit, is ignored, so no transfer completes.
pub proof fn lemma_abandoned_transfer(
    header: TransferHeader,
    frames: Seq<Frame>,
    slots: Seq<Option<Box<Session>>>,
    outcomes: Seq<SessionOutcome>,
    max: usize,
    timeout: Duration,
    k: int,
)
    requires
        frames.len() == outcomes.len(),
        slots.len() == frames.len() + 1,
        forall|i: int|
            0 <= i < frames.len() ==> session_step(
                expire_slot(slots[i], timeout, frames[i].timestamp),
                #[trigger] slots[i + 1],
                header,
                TailByte::spec_parse(frames[i].data@.last()),
                frames[i],
                max,
                timeout,
                outcomes[i],
            ),
        0 <= k < frames.len(),
        ({
            let tail = TailByte::spec_parse(frames[k].data@.last());
            let slot = expire_slot(slots[k], timeout, frames[k].timestamp);
            &&& slot matches Some(s)
            &&& s.spec_transfer_id() == tail.transfer_id
            &&& frames[k].timestamp.spec_duration_since(s.spec_transfer_timestamp()) <= timeout.micros
            &&& (s.spec_bytes().len() + frame_payload(frames[k]).len() > max || (s.spec_bytes().len()
                + frame_payload(frames[k]).len() <= max && s.spec_expected_toggle() != tail.toggle))
        }),
        forall|i: int|
            k < i < frames.len() ==> !(#[trigger] TailByte::spec_parse(frames[i].data@.last())).start,
    ensures
        outcomes[k] is Dropped,
        forall|i: int| k < i < frames.len() ==> #[trigger] outcomes[i] is Ignored,
        forall|i: int| k < i <= frames.len() ==> #[trigger] slots[i] is None,
{
    assert(session_step(
        expire_slot(slots[k], timeout, frames[k].timestamp),
        slots[k + 1],
        header,
        TailByte::spec_parse(frames[k].data@.last()),
        frames[k],
        max,
        timeout,
        outcomes[k],
    ));
    lemma_ignored_suffix(header, frames, slots, outcomes, max, timeout, k + 1);
}

/// Frames without the start bit, when their source has no session, are ignored and leave it
/// without one.
proof fn lemma_ignored_suffix(
    header: TransferHeader,
    frames: Seq<Frame>,
    slots: Seq<Option<Box<Session>>>,
    outcomes: Seq<SessionOutcome>,
    max: usize,
    timeout: Duration,
    j: int,
)
    requires
        frames.len() == outcomes.len(),
        slots.len() == frames.len() + 1,
        forall|i: int|
            0 <= i < frames.len() ==> session_step(
                expire_slot(slots[i], timeout, frames[i].timestamp),
                #[trigger] slots[i + 1],
                header,
                TailByte::spec_parse(frames[i].data@.last()),
                frames[i],
                max,
                timeout,
                outcomes[i],
            ),
        1 <= j <= frames.len(),
        slots[j] is None,
        forall|i: int|
            j <= i < frames.len() ==> !(#[trigger] TailByte::spec_parse(frames[i].data@.last())).start,
    ensures
        forall|i: int| j <= i < frames.len() ==> #[trigger] outcomes[i] is Ignored,
        forall|i: int| j <= i <= frames.len() ==> #[trigger] slots[i] is None,
    decreases frames.len() - j,
{
    if j < frames.len() {
        assert(session_step(
            expire_slot(slots[j], timeout, frames[j].timestamp),
            slots[j + 1],
            header,
            TailByte::spec_parse(frames[j].data@.last()),
            frames[j],
            max,
            timeout,
            outcomes[j],
        ));
        assert(!TailByte::spec_parse(frames[j].data@.last()).start);
        lemma_ignored_suffix(header, frames, slots, outcomes, max, timeout, j + 1);
        assert forall|i: int| j <= i <= frames.len() implies #[trigger] slots[i] is None by {
            if i > j {
                assert(slots[i] is None);
            }
        }
    }
}

/// A single-frame transfer carries no CRC: a frame with the start, end and toggle bits, from a
/// source without a session, within the payload budget, completes at once with its data (tail
/// byte excepted) as the payload, whatever those bytes are, unless memory runs out.
pub proof fn lemma_single_frame_delivered(
    old_slot: Option<Box<Session>>,
    new_slot: Option<Box<Session>>,
    header: TransferHeader,
    tail: TailByte,
    frame: Frame,
    max: usize,
    timeout: Duration,
    o: SessionOutcome,
)
    requires
        session_step(old_slot, new_slot, header, tail, frame, max, timeout, o),
        old_slot is None,
        tail.start && tail.end && tail.toggle,
        frame_payload(frame).len() <= max,
    ensures
        o is NoMemory || o is PayloadNoMemory || (o matches SessionOutcome::Complete(t)
            && t.payload@ == frame_payload(frame) && t.header == header && t.transfer_id
            == tail.transfer_id && t.timestamp == frame.timestamp),
{
    assert(Seq::<u8>::empty() + frame_payload(frame) =~= frame_payload(frame));
    assert(frames_after(0) == 1);
}

/// The last frame of a multi-frame transfer whose reassembled bytes differ in one byte from
/// bytes with a valid CRC never completes the transfer: the CRC check drops it (or memory runs
/// out first).
pub proof fn lemma_corrupted_transfer_dropped(
    old_slot: Option<Box<Session>>,
    new_slot: Option<Box<Session>>,
    header: TransferHeader,
    tail: TailByte,
    frame: Frame,
    max: usize,
    timeout: Duration,
    o: SessionOutcome,
    sent: Seq<u8>,
    i: int,
    b: u8,
)
    requires
        session_step(old_slot, new_slot, header, tail, frame, max, timeout, o),
        old_slot matches Some(s) && s.spec_transfer_id() == tail.transfer_id && s.spec_frames()
            >= 1 && s.spec_bytes() + frame_payload(frame) == sent.update(i, b),
        tail.end,
        transfer_crc(sent) == 0,
        0 <= i < sent.len(),
        b != sent[i],
    ensures
        !(o is Complete),
        new_slot is None,
{
    crate::crc::lemma_corrupted_transfer_fails_crc(sent, i, b);
}

} // verus!
