//! What the receiver makes of the frames that the transmitter produces.
use vstd::prelude::*;

use crate::can_id::{header_wf, lemma_parse_of_build, spec_can_id_bits, spec_parse_can_id};
use crate::crc::{lemma_crc_of_appended_crc, transfer_crc};
use crate::frame::{Frame, OutOfMemoryError};
use crate::header::{Transfer, TransferHeader, TransferKindHeader};
use crate::ids::TransferId;
use crate::rx::{
    accept_step, expire_slot, frame_payload, frames_after, is_error, kind_step, list_wf,
    is_transfer, result_of, session_step, spec_sanity_check, wrapping_inc, Receiver, Session, SessionOutcome,
};
use crate::tail::{lemma_tail_round_trip, TailByte};
use crate::time::Duration;
use crate::tx::{
    frame_count, is_single_frame, last_frame_len, lemma_frame_layout, pad_len, padded,
    tx_frame_data, tx_stream, Mtu,
};

verus! {

/// Where the stream bytes of frame `i` end
pub open spec fn chunk_end(i: nat, c: nat, len: nat) -> int {
    if (i + 1) * c <= len {
        ((i + 1) * c) as int
    } else {
        len as int
    }
}

/// The stream of a transfer that needs no padding is its payload, followed by its CRC if it
/// takes more than one frame; the CRC of the whole stream is then zero.
proof fn lemma_stream(payload: Seq<u8>, m: nat)
    requires
        pad_len(payload.len(), m) == 0,
    ensures
        is_single_frame(payload.len(), m) ==> tx_stream(payload, m) == payload,
        !is_single_frame(payload.len(), m) ==> {
            &&& tx_stream(payload, m).len() == payload.len() + 2
            &&& tx_stream(payload, m).subrange(0, payload.len() as int) == payload
            &&& transfer_crc(tx_stream(payload, m)) == 0
        },
{
    assert(padded(payload, m) =~= payload);
    if !is_single_frame(payload.len(), m) {
        lemma_crc_of_appended_crc(payload);
        assert(tx_stream(payload, m).subrange(0, payload.len() as int) =~= payload);
    }
}

/// Frame `i` carries the stream bytes from `i * (mtu - 1)` to `chunk_end`: full chunks but for
/// the last frame, which ends with the stream.
proof fn lemma_chunk(payload: Seq<u8>, m: nat, i: nat)
    requires
        8 <= m,
        pad_len(payload.len(), m) == 0,
        i < frame_count(payload.len(), m),
    ensures
        ({
            let c = (m - 1) as nat;
            let len = tx_stream(payload, m).len();
            &&& i * c <= chunk_end(i, c, len) <= len
            &&& i + 1 < frame_count(payload.len(), m) ==> chunk_end(i, c, len) == (i + 1) * c
            &&& i + 1 == frame_count(payload.len(), m) ==> chunk_end(i, c, len) == len
        }),
{
    let n = payload.len();
    let c = (m - 1) as nat;
    let count = frame_count(n, m);
    lemma_frame_layout(n, m);
    lemma_stream(payload, m);
    let len = tx_stream(payload, m).len();
    assert(len == (count - 1) * c + last_frame_len(n, m));
    assert(i * c <= (count - 1) * c) by (nonlinear_arith)
        requires
            i <= count - 1,
    ;
    assert((i + 1) * c == i * c + c) by (nonlinear_arith);
    assert((count - 1) * c + c == count * c) by (nonlinear_arith)
        requires
            count >= 1,
    ;
    if i + 1 < count {
        assert((i + 1) * c <= (count - 1) * c) by (nonlinear_arith)
            requires
                i + 1 <= count - 1,
        ;
    }
}

/// The session state after the first `k` frames of a transfer
pub(crate) open spec fn session_after(
    s: Session,
    stream: Seq<u8>,
    first: Frame,
    transfer_id: TransferId,
    c: nat,
    k: nat,
) -> bool {
    &&& s.transfer_timestamp == first.timestamp
    &&& s.buildup.transfer_id == transfer_id
    &&& s.buildup.bytes@ == stream.subrange(0, (k * c) as int)
    &&& s.buildup.expected_toggle == (k % 2 == 0)
    &&& s.buildup.frames == k
}

/// Feeding the frames of a transfer, in order, to the session slot of their source, starting
/// without a session, gives back the transfer's header, transfer ID and payload.
///
/// This holds for every MTU when the last frame needs no padding (always with classic CAN),
/// when the frames arrive within the timeout of the first one and the payload budget covers
/// the payload and its CRC, and when no allocation fails (the outcome of a frame is never
/// `NoMemory` or `PayloadNoMemory`). Before each frame the receiver removes an expired session, which
/// is accounted for here. Every frame but the last leaves the transfer pending.
pub proof fn lemma_transfer_round_trip(
    header: TransferHeader,
    transfer_id: TransferId,
    payload: Seq<u8>,
    mtu: Mtu,
    frames: Seq<Frame>,
    slots: Seq<Option<Box<Session>>>,
    outcomes: Seq<SessionOutcome>,
    max: usize,
    timeout: Duration,
)
    requires
        header_wf(header),
        transfer_id.spec_value() <= 31,
        pad_len(payload.len(), mtu.spec_bytes()) == 0,
        tx_stream(payload, mtu.spec_bytes()).len() <= max,
        frames.len() == frame_count(payload.len(), mtu.spec_bytes()),
        forall|i: int|
            0 <= i < frames.len() ==> {
                &&& (#[trigger] frames[i]).id.spec_bits() == spec_can_id_bits(header)
                &&& frames[i].data@ == tx_frame_data(
                    payload,
                    mtu.spec_bytes(),
                    transfer_id.spec_value(),
                    i as nat,
                )
                &&& frames[i].timestamp.spec_duration_since(frames[0].timestamp) <= timeout.micros
            },
        slots.len() == frames.len() + 1,
        outcomes.len() == frames.len(),
        expire_slot(slots[0], timeout, frames[0].timestamp) is None,
        forall|i: int|
            0 <= i < frames.len() ==> session_step(
                expire_slot(slots[i], timeout, frames[i].timestamp),
                #[trigger] slots[i + 1],
                header,
                TailByte::spec_parse(frames[i].data@.last()),
                frames[i],
                max,
                timeout,
                outcomes[i],
            ),
        forall|i: int|
            0 <= i < outcomes.len() ==> !(#[trigger] outcomes[i] is PayloadNoMemory) && !(
            outcomes[i] is NoMemory),
    ensures
        spec_parse_can_id(frames[0].id.spec_bits()) == Ok::<
            TransferHeader,
            crate::can_id::CanIdParseError,
        >(header),
        forall|i: int| 0 <= i < outcomes.len() - 1 ==> #[trigger] outcomes[i] is Pending,
        outcomes[outcomes.len() - 1] matches SessionOutcome::Complete(t) && t.payload@ == payload
            && t.header == header && t.transfer_id == transfer_id && t.timestamp
            == frames[0].timestamp,
{
    let m = mtu.spec_bytes();
    let n = payload.len();
    let c = (m - 1) as nat;
    let count = frame_count(n, m);
    let stream = tx_stream(payload, m);
    lemma_parse_of_build(header);
    lemma_frame_layout(n, m);
    lemma_stream(payload, m);
    assert forall|i: int| 0 <= i < outcomes.len() - 1 implies #[trigger] outcomes[i] is Pending by {
        lemma_round_trip_steps(
            header,
            transfer_id,
            payload,
            mtu,
            frames,
            slots,
            outcomes,
            max,
            timeout,
            i as nat,
        );
    }
    lemma_round_trip_steps(
        header,
        transfer_id,
        payload,
        mtu,
        frames,
        slots,
        outcomes,
        max,
        timeout,
        (count - 1) as nat,
    );
}

/// One frame of the transfer, given the session state before it
proof fn lemma_one_step(
    old_slot: Option<Box<Session>>,
    new_slot: Option<Box<Session>>,
    header: TransferHeader,
    tail: TailByte,
    f: Frame,
    max: usize,
    timeout: Duration,
    o: SessionOutcome,
    stream: Seq<u8>,
    first: Frame,
    transfer_id: TransferId,
    c: nat,
    k: nat,
    end: int,
    count: nat,
)
    requires
        session_step(old_slot, new_slot, header, tail, f, max, timeout, o),
        !(o is PayloadNoMemory) && !(o is NoMemory),
        tail.start == (k == 0),
        tail.end == (k + 1 == count),
        tail.toggle == (k % 2 == 0),
        tail.transfer_id == transfer_id,
        frame_payload(f) == stream.subrange((k * c) as int, end),
        k == 0 ==> old_slot is None && f.timestamp == first.timestamp,
        k > 0 ==> (old_slot matches Some(s) && session_after(*s, stream, first, transfer_id, c, k)),
        f.timestamp.spec_duration_since(first.timestamp) <= timeout.micros,
        k * c <= end <= stream.len() <= max,
        k + 1 < count ==> end == (k + 1) * c,
        k + 1 == count ==> end == stream.len(),
        k + 1 <= count,
        c >= 1,
        k + 1 < count ==> k + 1 <= max,
        k > 0 && k + 1 == count ==> stream.len() >= 2 && transfer_crc(stream) == 0,
    ensures
        k + 1 < count ==> o is Pending && (new_slot matches Some(s) && session_after(
            *s,
            stream,
            first,
            transfer_id,
            c,
            k + 1,
        )),
        k + 1 == count ==> (o matches SessionOutcome::Complete(t) && t.header == header
            && t.transfer_id == transfer_id && t.timestamp == first.timestamp && t.payload@ == (
        if k == 0 {
            stream
        } else {
            stream.subrange(0, stream.len() - 2)
        })),
{
    if k > 0 {
        assert(stream.subrange(0, (k * c) as int) + stream.subrange((k * c) as int, end)
            =~= stream.subrange(0, end));
    } else {
        assert(0 * c == 0);
        assert(Seq::<u8>::empty() + stream.subrange(0, end) =~= stream.subrange(0, end));
    }
    assert(k <= k * c) by (nonlinear_arith)
        requires
            c >= 1,
    ;
    if k == 0 {
        assert(frames_after(k as usize) == 1);
    } else {
        assert(frames_after(k as usize) > 1);
    }
    if k + 1 == count {
        assert(stream.subrange(0, end) =~= stream);
    } else {
        assert(((k + 1) % 2 == 0) == !(k % 2 == 0));
        assert(frames_after(k as usize) == k + 1);
    }
}

/// The state after each frame of the transfer
proof fn lemma_round_trip_steps(
    header: TransferHeader,
    transfer_id: TransferId,
    payload: Seq<u8>,
    mtu: Mtu,
    frames: Seq<Frame>,
    slots: Seq<Option<Box<Session>>>,
    outcomes: Seq<SessionOutcome>,
    max: usize,
    timeout: Duration,
    k: nat,
)
    requires
        header_wf(header),
        transfer_id.spec_value() <= 31,
        pad_len(payload.len(), mtu.spec_bytes()) == 0,
        tx_stream(payload, mtu.spec_bytes()).len() <= max,
        frames.len() == frame_count(payload.len(), mtu.spec_bytes()),
        forall|i: int|
            0 <= i < frames.len() ==> {
                &&& (#[trigger] frames[i]).id.spec_bits() == spec_can_id_bits(header)
                &&& frames[i].data@ == tx_frame_data(
                    payload,
                    mtu.spec_bytes(),
                    transfer_id.spec_value(),
                    i as nat,
                )
                &&& frames[i].timestamp.spec_duration_since(frames[0].timestamp) <= timeout.micros
            },
        slots.len() == frames.len() + 1,
        outcomes.len() == frames.len(),
        expire_slot(slots[0], timeout, frames[0].timestamp) is None,
        forall|i: int|
            0 <= i < frames.len() ==> session_step(
                expire_slot(slots[i], timeout, frames[i].timestamp),
                #[trigger] slots[i + 1],
                header,
                TailByte::spec_parse(frames[i].data@.last()),
                frames[i],
                max,
                timeout,
                outcomes[i],
            ),
        forall|i: int|
            0 <= i < outcomes.len() ==> !(#[trigger] outcomes[i] is PayloadNoMemory) && !(
            outcomes[i] is NoMemory),
        k < frames.len(),
    ensures
        k + 1 < frames.len() ==> outcomes[k as int] is Pending && (slots[k + 1 as int] matches Some(s)
            && session_after(
            *s,
            tx_stream(payload, mtu.spec_bytes()),
            frames[0],
            transfer_id,
            (mtu.spec_bytes() - 1) as nat,
            k + 1,
        )),
        k + 1 == frames.len() ==> (outcomes[k as int] matches SessionOutcome::Complete(t)
            && t.payload@ == payload && t.header == header && t.transfer_id == transfer_id
            && t.timestamp == frames[0].timestamp),
    decreases k,
{
    let m = mtu.spec_bytes();
    let n = payload.len();
    let c = (m - 1) as nat;
    let count = frame_count(n, m);
    let stream = tx_stream(payload, m);
    let len = stream.len();
    let tid = transfer_id.spec_value();
    if k > 0 {
        lemma_round_trip_steps(
            header,
            transfer_id,
            payload,
            mtu,
            frames,
            slots,
            outcomes,
            max,
            timeout,
            (k - 1) as nat,
        );
    }
    lemma_frame_layout(n, m);
    lemma_stream(payload, m);
    lemma_chunk(payload, m, k);
    let f = frames[k as int];
    let end = chunk_end(k, c, len);
    assert(f.data@ == tx_frame_data(payload, m, tid, k));
    lemma_tail_round_trip(k == 0, k + 1 == count, k % 2 == 0, tid);
    let tail = TailByte::spec_parse(f.data@.last());
    assert(frame_payload(f) == stream.subrange((k * c) as int, end));
    let old_slot = expire_slot(slots[k as int], timeout, f.timestamp);
    assert(session_step(
        old_slot,
        slots[k + 1 as int],
        header,
        tail,
        f,
        max,
        timeout,
        outcomes[k as int],
    ));
    assert(!(outcomes[k as int] is PayloadNoMemory) && !(outcomes[k as int] is NoMemory));
    assert(f.timestamp.spec_duration_since(frames[0].timestamp) <= timeout.micros);
    if k > 0 {
        assert(old_slot == slots[k as int]);
    }
    assert(k + 1 <= (k + 1) * c) by (nonlinear_arith)
        requires
            c >= 1,
    ;
    if k > 0 && k + 1 == count {
        assert(!is_single_frame(n, m));
    }
    lemma_one_step(
        old_slot,
        slots[k + 1 as int],
        header,
        tail,
        f,
        max,
        timeout,
        outcomes[k as int],
        stream,
        frames[0],
        transfer_id,
        c,
        k,
        end,
        count,
    );
    if k + 1 == count {
        if k > 0 {
            assert(stream.subrange(0, len - 2) =~= payload);
        }
    }
}

/// The outcome that `accept_step` promises for one frame
spec fn outcome_of(
    rx: Receiver,
    next: Receiver,
    frame: Frame,
    result: Result<Option<Transfer>, OutOfMemoryError>,
    header: TransferHeader,
    tail: TailByte,
) -> Option<(usize, SessionOutcome)> {
    choose|o: Option<(usize, SessionOutcome)>|
        {
            &&& #[trigger] kind_step(
                rx.subscriptions(header.kind.spec_kind()),
                next.subscriptions(header.kind.spec_kind()),
                header,
                tail,
                frame,
                o,
            )
            &&& result == result_of(o)
            &&& next.error_count == if is_error(o) {
                wrapping_inc(rx.error_count)
            } else {
                rx.error_count
            }
            &&& next.transfer_count == if is_transfer(o) {
                wrapping_inc(rx.transfer_count)
            } else {
                rx.transfer_count
            }
        }
}

/// True if the frames are those of a transfer, as the transmitter produces them
pub open spec fn transmitted(
    frames: Seq<Frame>,
    header: TransferHeader,
    transfer_id: TransferId,
    payload: Seq<u8>,
    mtu: Mtu,
) -> bool {
    &&& frames.len() == frame_count(payload.len(), mtu.spec_bytes())
    &&& forall|i: int|
        0 <= i < frames.len() ==> {
            &&& (#[trigger] frames[i]).id.spec_bits() == spec_can_id_bits(header)
            &&& frames[i].data@ == tx_frame_data(
                payload,
                mtu.spec_bytes(),
                transfer_id.spec_value(),
                i as nat,
            )
        }
}

/// Transmitting a transfer and handing its frames, in order, to a receiver subscribed to its
/// kind and port gives back exactly its header, transfer ID and payload, from the last frame,
/// and nothing before.
///
/// This holds when the receiver may take the transfer (a service transfer is addressed to it,
/// and an anonymous one fits in one frame), the subscription's payload budget covers the
/// payload and its CRC, the frames arrive within its timeout of the first, no session of the
/// source is in progress at the first frame, the last frame needs no CAN FD padding, and the
/// error counter does not move. It moves when memory for a session or for the payload runs out
/// (outcome `NoMemory` or `PayloadNoMemory`); those are the only outcomes that
/// `lemma_transfer_round_trip` has to exclude, the frames themselves are never dropped.
pub proof fn lemma_receiver_round_trip(
    header: TransferHeader,
    transfer_id: TransferId,
    payload: Seq<u8>,
    mtu: Mtu,
    frames: Seq<Frame>,
    rxs: Seq<Receiver>,
    results: Seq<Result<Option<Transfer>, OutOfMemoryError>>,
    sub: int,
)
    requires
        header_wf(header),
        transfer_id.spec_value() <= 31,
        pad_len(payload.len(), mtu.spec_bytes()) == 0,
        transmitted(frames, header, transfer_id, payload, mtu),
        header.spec_is_anonymous() ==> frames.len() == 1,
        header.kind matches TransferKindHeader::Request(s) ==> s.destination == rxs[0].spec_id(),
        header.kind matches TransferKindHeader::Response(s) ==> s.destination == rxs[0].spec_id(),
        rxs.len() == frames.len() + 1,
        results.len() == frames.len(),
        forall|i: int|
            0 <= i < rxs.len() ==> (#[trigger] rxs[i]).wf() && rxs[i].spec_id() == rxs[0].spec_id(),
        forall|i: int|
            0 <= i < frames.len() ==> #[trigger] accept_step(rxs[i], rxs[i + 1], frames[i], results[i]),
        forall|i: int|
            0 <= i < frames.len() ==> (#[trigger] rxs[i + 1]).spec_error_count() == rxs[i].spec_error_count(),
        0 <= sub < rxs[0].subscriptions(header.kind.spec_kind()).len(),
        ({
            let s0 = rxs[0].subscriptions(header.kind.spec_kind())[sub];
            &&& s0.spec_port() == header.kind.spec_port()
            &&& tx_stream(payload, mtu.spec_bytes()).len() <= s0.spec_payload_size_max()
            &&& forall|i: int|
                0 <= i < frames.len() ==> (#[trigger] frames[i]).timestamp.spec_duration_since(
                    frames[0].timestamp,
                ) <= s0.spec_timeout().micros
            &&& expire_slot(
                s0.spec_slot(header.source.spec_value() as int),
                s0.spec_timeout(),
                frames[0].timestamp,
            ) is None
        }),
    ensures
        forall|i: int|
            0 <= i < results.len() - 1 ==> #[trigger] results[i] == Ok::<
                Option<Transfer>,
                OutOfMemoryError,
            >(None),
        results[results.len() - 1] matches Ok(Some(t)) && t.payload@ == payload && t.header
            == header && t.transfer_id == transfer_id,
{
    let kind = header.kind.spec_kind();
    let port = header.kind.spec_port();
    let src = header.source.spec_value() as int;
    let m = mtu.spec_bytes();
    let n = frames.len();
    let s0 = rxs[0].subscriptions(kind)[sub];
    assert(round_trip_setup(header, transfer_id, payload, mtu, frames, rxs, results, sub));
    lemma_parse_of_build(header);
    lemma_frame_layout(payload.len(), m);
    // The subscription keeps its place and settings, and each frame is handed to it
    assert forall|i: int| 0 <= i < n implies {
        let tail = TailByte::spec_parse(frames[i].data@.last());
        &&& #[trigger] spec_sanity_check(rxs[i].spec_id(), frames[i]) == Some((header, tail))
    } by {
        let tid = transfer_id.spec_value();
        let count = frame_count(payload.len(), m);
        assert(frames[i].data@ == tx_frame_data(payload, m, tid, i as nat));
        lemma_tail_round_trip(i == 0, i + 1 == count, i % 2 == 0, tid);
    }
    assert forall|i: int| 0 <= i <= n implies {
        &&& sub < (#[trigger] rxs[i]).subscriptions(kind).len()
        &&& rxs[i].subscriptions(kind)[sub].spec_port() == port
        &&& rxs[i].subscriptions(kind)[sub].spec_payload_size_max() == s0.spec_payload_size_max()
        &&& rxs[i].subscriptions(kind)[sub].spec_timeout() == s0.spec_timeout()
    } by {
        lemma_subscription_kept(header, transfer_id, payload, mtu, frames, rxs, results, sub, i);
    }
    let outcomes = Seq::new(
        n,
        |i: int|
            outcome_of(
                rxs[i],
                rxs[i + 1],
                frames[i],
                results[i],
                header,
                TailByte::spec_parse(frames[i].data@.last()),
            )->Some_0.1,
    );
    let slots = Seq::new(n + 1, |i: int| rxs[i].subscriptions(kind)[sub].spec_slot(src));
    assert forall|i: int| 0 <= i < n implies session_step(
        expire_slot(slots[i], s0.spec_timeout(), frames[i].timestamp),
        #[trigger] slots[i + 1],
        header,
        TailByte::spec_parse(frames[i].data@.last()),
        frames[i],
        s0.spec_payload_size_max(),
        s0.spec_timeout(),
        outcomes[i],
    ) by {
        lemma_step_outcome(header, transfer_id, payload, mtu, frames, rxs, results, sub, i);
    }
    assert forall|i: int| 0 <= i < n implies !(#[trigger] outcomes[i] is PayloadNoMemory) && !(
    outcomes[i] is NoMemory) && results[i] == result_of(Some((sub as usize, outcomes[i]))) by {
        lemma_step_outcome(header, transfer_id, payload, mtu, frames, rxs, results, sub, i);
    }
    lemma_transfer_round_trip(
        header,
        transfer_id,
        payload,
        mtu,
        frames,
        slots,
        outcomes,
        s0.spec_payload_size_max(),
        s0.spec_timeout(),
    );
    assert forall|i: int| 0 <= i < results.len() - 1 implies #[trigger] results[i] == Ok::<
        Option<Transfer>,
        OutOfMemoryError,
    >(None) by {
        assert(outcomes[i] is Pending);
    }
    assert(outcomes[n - 1] is Complete);
}

/// The conditions of `lemma_receiver_round_trip`
spec fn round_trip_setup(
    header: TransferHeader,
    transfer_id: TransferId,
    payload: Seq<u8>,
    mtu: Mtu,
    frames: Seq<Frame>,
    rxs: Seq<Receiver>,
    results: Seq<Result<Option<Transfer>, OutOfMemoryError>>,
    sub: int,
) -> bool {
    &&& header_wf(header)
    &&& transfer_id.spec_value() <= 31
    &&& pad_len(payload.len(), mtu.spec_bytes()) == 0
    &&& transmitted(frames, header, transfer_id, payload, mtu)
    &&& header.spec_is_anonymous() ==> frames.len() == 1
    &&& header.kind matches TransferKindHeader::Request(s) ==> s.destination == rxs[0].spec_id()
    &&& header.kind matches TransferKindHeader::Response(s) ==> s.destination == rxs[0].spec_id()
    &&& rxs.len() == frames.len() + 1
    &&& results.len() == frames.len()
    &&& forall|i: int|
        0 <= i < rxs.len() ==> (#[trigger] rxs[i]).wf() && rxs[i].spec_id() == rxs[0].spec_id()
    &&& forall|i: int|
        0 <= i < frames.len() ==> #[trigger] accept_step(rxs[i], rxs[i + 1], frames[i], results[i])
    &&& forall|i: int|
        0 <= i < frames.len() ==> (#[trigger] rxs[i + 1]).spec_error_count()
            == rxs[i].spec_error_count()
    &&& 0 <= sub < rxs[0].subscriptions(header.kind.spec_kind()).len()
    &&& rxs[0].subscriptions(header.kind.spec_kind())[sub].spec_port() == header.kind.spec_port()
}

/// Each frame passes the receiver's sanity checks.
proof fn lemma_frame_sane(
    header: TransferHeader,
    transfer_id: TransferId,
    payload: Seq<u8>,
    mtu: Mtu,
    frames: Seq<Frame>,
    rxs: Seq<Receiver>,
    results: Seq<Result<Option<Transfer>, OutOfMemoryError>>,
    sub: int,
    i: int,
)
    requires
        round_trip_setup(header, transfer_id, payload, mtu, frames, rxs, results, sub),
        0 <= i < frames.len(),
    ensures
        spec_sanity_check(rxs[i].spec_id(), frames[i]) == Some(
            (header, TailByte::spec_parse(frames[i].data@.last())),
        ),
{
    let m = mtu.spec_bytes();
    let tid = transfer_id.spec_value();
    let count = frame_count(payload.len(), m);
    lemma_parse_of_build(header);
    lemma_frame_layout(payload.len(), m);
    assert(frames[i].data@ == tx_frame_data(payload, m, tid, i as nat));
    lemma_tail_round_trip(i == 0, i + 1 == count, i % 2 == 0, tid);
    assert(rxs[i].spec_id() == rxs[0].spec_id());
}

/// Every receiver in the sequence has the subscription at the same place, with the same
/// settings.
proof fn lemma_subscription_kept(
    header: TransferHeader,
    transfer_id: TransferId,
    payload: Seq<u8>,
    mtu: Mtu,
    frames: Seq<Frame>,
    rxs: Seq<Receiver>,
    results: Seq<Result<Option<Transfer>, OutOfMemoryError>>,
    sub: int,
    i: int,
)
    requires
        round_trip_setup(header, transfer_id, payload, mtu, frames, rxs, results, sub),
        0 <= i <= frames.len(),
    ensures
        sub < rxs[i].subscriptions(header.kind.spec_kind()).len(),
        rxs[i].subscriptions(header.kind.spec_kind())[sub].spec_port() == header.kind.spec_port(),
        rxs[i].subscriptions(header.kind.spec_kind())[sub].spec_payload_size_max() == rxs[0].subscriptions(
            header.kind.spec_kind(),
        )[sub].spec_payload_size_max(),
        rxs[i].subscriptions(header.kind.spec_kind())[sub].spec_timeout() == rxs[0].subscriptions(
            header.kind.spec_kind(),
        )[sub].spec_timeout(),
    decreases i,
{
    if i > 0 {
        let kind = header.kind.spec_kind();
        lemma_subscription_kept(header, transfer_id, payload, mtu, frames, rxs, results, sub, i - 1);
        lemma_frame_sane(header, transfer_id, payload, mtu, frames, rxs, results, sub, i - 1);
        let tail = TailByte::spec_parse(frames[i - 1].data@.last());
        assert(accept_step(rxs[i - 1], rxs[i], frames[i - 1], results[i - 1]));
        let o = outcome_of(rxs[i - 1], rxs[i], frames[i - 1], results[i - 1], header, tail);
        let old = rxs[i - 1].subscriptions(kind);
        let new = rxs[i].subscriptions(kind);
        assert(kind_step(old, new, header, tail, frames[i - 1], o));
        match o {
            None => {
                assert(crate::rx::expired_sub(old[sub], new[sub], frames[i - 1].timestamp));
            },
            Some((j, so)) => {
                if j != sub {
                    assert(crate::rx::expired_sub(old[sub], new[sub], frames[i - 1].timestamp));
                }
            },
        }
    }
}

/// The list of a kind of a well-formed receiver has distinct ports.
proof fn lemma_kind_list_wf(rx: Receiver, kind: crate::header::TransferKind)
    requires
        rx.wf(),
    ensures
        list_wf(rx.subscriptions(kind)),
{
    match kind {
        crate::header::TransferKind::Message => {},
        crate::header::TransferKind::Response => {},
        crate::header::TransferKind::Request => {},
    }
}

/// Each frame goes to the subscription, and its outcome is neither `Dropped` nor `NoMemory`.
proof fn lemma_step_outcome(
    header: TransferHeader,
    transfer_id: TransferId,
    payload: Seq<u8>,
    mtu: Mtu,
    frames: Seq<Frame>,
    rxs: Seq<Receiver>,
    results: Seq<Result<Option<Transfer>, OutOfMemoryError>>,
    sub: int,
    i: int,
)
    requires
        round_trip_setup(header, transfer_id, payload, mtu, frames, rxs, results, sub),
        0 <= i < frames.len(),
    ensures
        ({
            let kind = header.kind.spec_kind();
            let src = header.source.spec_value() as int;
            let tail = TailByte::spec_parse(frames[i].data@.last());
            let o = outcome_of(rxs[i], rxs[i + 1], frames[i], results[i], header, tail);
            let s = rxs[i].subscriptions(kind)[sub];
            &&& o matches Some((j, so)) && j == sub
            &&& session_step(
                expire_slot(s.spec_slot(src), s.spec_timeout(), frames[i].timestamp),
                rxs[i + 1].subscriptions(kind)[sub].spec_slot(src),
                header,
                tail,
                frames[i],
                s.spec_payload_size_max(),
                s.spec_timeout(),
                o->Some_0.1,
            )
            &&& !(o->Some_0.1 is PayloadNoMemory) && !(o->Some_0.1 is NoMemory)
            &&& results[i] == result_of(o)
        }),
{
    let kind = header.kind.spec_kind();
    let tail = TailByte::spec_parse(frames[i].data@.last());
    lemma_subscription_kept(header, transfer_id, payload, mtu, frames, rxs, results, sub, i);
    lemma_frame_sane(header, transfer_id, payload, mtu, frames, rxs, results, sub, i);
    assert(accept_step(rxs[i], rxs[i + 1], frames[i], results[i]));
    assert(rxs[i].wf());
    lemma_kind_list_wf(rxs[i], kind);
    let o = outcome_of(rxs[i], rxs[i + 1], frames[i], results[i], header, tail);
    let old = rxs[i].subscriptions(kind);
    assert(kind_step(old, rxs[i + 1].subscriptions(kind), header, tail, frames[i], o));
    assert(rxs[i + 1].spec_error_count() == rxs[i].spec_error_count());
    match o {
        None => {
            assert(old[sub].port_id != header.kind.spec_port());
        },
        Some((j, so)) => {
            if j != sub {
                assert(old[j as int].port_id != old[sub].port_id);
            }
            assert(!is_error(o));
        },
    }
}

} // verus!
