//! Transmission: splitting a transfer into frames with tail bytes, the transfer CRC and CAN FD
//! padding, and queueing them in order.
use vstd::prelude::*;

use crate::can_id::{make_can_id, spec_can_id_bits};
use crate::crc::{crc_bytes, transfer_crc, TransferCrc};
use crate::fallible::{try_extend_from_slice, try_push};
use crate::frame::{Frame, OutOfMemoryError};
use crate::header::TransferHeader;
use crate::ids::TransferId;
use crate::tail::{spec_tail_bits, TailByte};
use crate::time::Instant;

verus! {

/// The largest number of bytes in a frame
#[derive(Debug, Clone, Copy, PartialEq, Eq, Structural)]
pub enum Mtu {
    /// Classic CAN: 8 bytes
    Can8,
    /// CAN FD, 12 bytes
    CanFd12,
    /// CAN FD, 16 bytes
    CanFd16,
    /// CAN FD, 20 bytes
    CanFd20,
    /// CAN FD, 24 bytes
    CanFd24,
    /// CAN FD, 32 bytes
    CanFd32,
    /// CAN FD, 48 bytes
    CanFd48,
    /// CAN FD, 64 bytes
    CanFd64,
}

impl Mtu {
    /// The number of bytes
    pub open spec fn spec_bytes(self) -> nat {
        match self {
            Mtu::Can8 => 8,
            Mtu::CanFd12 => 12,
            Mtu::CanFd16 => 16,
            Mtu::CanFd20 => 20,
            Mtu::CanFd24 => 24,
            Mtu::CanFd32 => 32,
            Mtu::CanFd48 => 48,
            Mtu::CanFd64 => 64,
        }
    }

    /// Returns the number of bytes
    pub fn bytes(self) -> (r: usize)
        ensures
            r == self.spec_bytes(),
    {
        match self {
            Mtu::Can8 => 8,
            Mtu::CanFd12 => 12,
            Mtu::CanFd16 => 16,
            Mtu::CanFd20 => 20,
            Mtu::CanFd24 => 24,
            Mtu::CanFd32 => 32,
            Mtu::CanFd48 => 48,
            Mtu::CanFd64 => 64,
        }
    }
}

/// The smallest CAN FD frame length (0..=8, 12, 16, 20, 24, 32, 48 or 64) of at least `len`
/// bytes
pub open spec fn dlc_round(len: nat) -> nat {
    if len <= 8 {
        len
    } else if len <= 12 {
        12
    } else if len <= 16 {
        16
    } else if len <= 20 {
        20
    } else if len <= 24 {
        24
    } else if len <= 32 {
        32
    } else if len <= 48 {
        48
    } else {
        64
    }
}

/// True if a payload of `n` bytes fits into one frame of `mtu` bytes with its tail byte
pub open spec fn is_single_frame(n: nat, mtu: nat) -> bool {
    n + 1 <= mtu
}

/// The number of frames a payload of `n` bytes takes: one, or enough for the payload and its
/// CRC at `mtu - 1` bytes per frame
pub open spec fn frame_count(n: nat, mtu: nat) -> nat {
    if is_single_frame(n, mtu) {
        1
    } else {
        ((n + 2 + (mtu - 2)) as nat / (mtu - 1) as nat) as nat
    }
}

/// The number of payload and CRC bytes in the last frame, before padding
pub open spec fn last_frame_len(n: nat, mtu: nat) -> nat {
    if is_single_frame(n, mtu) {
        n
    } else {
        (n + 2 - (frame_count(n, mtu) - 1) * (mtu - 1)) as nat
    }
}

/// The number of padding bytes that make the last frame a valid CAN FD length
pub open spec fn pad_len(n: nat, mtu: nat) -> nat {
    (dlc_round(last_frame_len(n, mtu) + 1) - (last_frame_len(n, mtu) + 1)) as nat
}

/// The payload followed by its zero padding
pub open spec fn padded(payload: Seq<u8>, mtu: nat) -> Seq<u8> {
    payload + Seq::new(pad_len(payload.len(), mtu), |i: int| 0u8)
}

/// The bytes that are spread over the frames, without tail bytes: the padded payload, followed
/// by the transfer CRC of the padded payload (most significant byte first) if it takes more
/// than one frame
pub open spec fn tx_stream(payload: Seq<u8>, mtu: nat) -> Seq<u8> {
    if is_single_frame(payload.len(), mtu) {
        padded(payload, mtu)
    } else {
        padded(payload, mtu) + crc_bytes(transfer_crc(padded(payload, mtu)))
    }
}

/// The data of frame `i` of a transfer: the next `mtu - 1` bytes of the stream (fewer in the
/// last frame), then the tail byte. The first frame has the start bit, the last one the end
/// bit, and the toggle bit starts at 1 and alternates.
pub open spec fn tx_frame_data(payload: Seq<u8>, mtu: nat, transfer_id: u8, i: nat) -> Seq<u8> {
    let stream = tx_stream(payload, mtu);
    let start: int = i * (mtu - 1);
    let end: int = if (i + 1) * (mtu - 1) <= stream.len() {
        (i + 1) * (mtu - 1)
    } else {
        stream.len() as int
    };
    stream.subrange(start, end).push(
        spec_tail_bits(i == 0, i + 1 == frame_count(payload.len(), mtu), i % 2 == 0, transfer_id),
    )
}

/// True if `frames` are the first `count` frames of a transfer
pub open spec fn frames_of_transfer(
    frames: Seq<Frame>,
    count: nat,
    deadline: Instant,
    header: TransferHeader,
    transfer_id: TransferId,
    payload: Seq<u8>,
    mtu: nat,
) -> bool {
    &&& frames.len() == count
    &&& forall|i: int|
        0 <= i < count ==> {
            &&& (#[trigger] frames[i]).timestamp == deadline
            &&& frames[i].id.spec_bits() == spec_can_id_bits(header)
            &&& frames[i].data@ == tx_frame_data(payload, mtu, transfer_id.spec_value(), i as nat)
        }
}

/// How the queue changes when a transfer is pushed: the transfer's frames are appended in
/// order, all of them on success, and a prefix of them when memory runs out
pub open(crate) spec fn pushed(
    old: Transmitter,
    new: Transmitter,
    deadline: Instant,
    header: TransferHeader,
    transfer_id: TransferId,
    payload: Seq<u8>,
    r: Result<(), OutOfMemoryError>,
) -> bool {
    let before = old.frames@.len();
    let after = new.frames@.len();
    let count = frame_count(payload.len(), old.mtu.spec_bytes());
    &&& new.mtu == old.mtu
    &&& new.frames@.subrange(0, before as int) == old.frames@
    &&& before <= after <= before + count
    &&& r is Ok ==> after == before + count
    &&& frames_of_transfer(
        new.frames@.subrange(before as int, after as int),
        (after - before) as nat,
        deadline,
        header,
        transfer_id,
        payload,
        old.mtu.spec_bytes(),
    )
}

/// Splits transfers into frames and keeps the frames in a queue, in order
#[derive(Debug)]
pub struct Transmitter {
    pub(crate) mtu: Mtu,
    pub(crate) frames: Vec<Frame>,
}

/// Returns the smallest valid CAN FD frame length of at least `len` bytes
fn round_up_dlc(len: usize) -> (r: usize)
    requires
        len <= 64,
    ensures
        r == dlc_round(len as nat),
{
    if len <= 8 {
        len
    } else if len <= 12 {
        12
    } else if len <= 16 {
        16
    } else if len <= 20 {
        20
    } else if len <= 24 {
        24
    } else if len <= 32 {
        32
    } else if len <= 48 {
        48
    } else {
        64
    }
}

/// A valid CAN FD length stays within an MTU that is at least as long.
proof fn lemma_dlc_round_fits(len: nat, mtu: Mtu)
    requires
        len <= mtu.spec_bytes(),
    ensures
        len <= dlc_round(len) <= mtu.spec_bytes(),
{
}

/// How a payload is laid out over frames: the frame count covers the payload and its CRC,
/// and the last frame of a multi-frame transfer holds 1 to `mtu - 1` of those bytes.
pub proof fn lemma_frame_layout(n: nat, mtu: nat)
    requires
        mtu >= 8,
    ensures
        frame_count(n, mtu) >= 1,
        last_frame_len(n, mtu) <= mtu - 1,
        !is_single_frame(n, mtu) ==> frame_count(n, mtu) >= 2 && last_frame_len(n, mtu) >= 1,
        (frame_count(n, mtu) - 1) * (mtu - 1) + last_frame_len(n, mtu) == n + (if is_single_frame(
            n,
            mtu,
        ) {
            0nat
        } else {
            2nat
        }),
{
    if !is_single_frame(n, mtu) {
        let c = mtu - 1;
        let t = n + 2;
        let f = ((t + (c - 1)) as nat / c as nat) as nat;
        assert(f == frame_count(n, mtu));
        assert(c * f <= t + (c - 1) < c * (f + 1)) by (nonlinear_arith)
            requires
                f == (t + (c - 1)) / c,
                c > 0,
        ;
        assert(c * (f + 1) == c * f + c) by (nonlinear_arith);
        assert(f >= 2) by (nonlinear_arith)
            requires
                c * f + c > t + (c - 1),
                t > c + 1,
                c > 0,
        ;
        assert((f - 1) * c == f * c - c) by (nonlinear_arith);
        assert(f * c == c * f) by (nonlinear_arith);
        assert((f - 1) * c <= t);
        assert(last_frame_len(n, mtu) == t - (f - 1) * c);
    } else {
        assert((1 - 1) * (mtu - 1) == 0) by (nonlinear_arith);
    }
}

impl Transmitter {
    /// The MTU frames are split to
    pub open(crate) spec fn spec_mtu(self) -> Mtu {
        self.mtu
    }

    /// The queued frames, oldest first
    pub open(crate) spec fn queue(self) -> Seq<Frame> {
        self.frames@
    }

    /// Creates a transmitter with an empty queue
    pub fn new(mtu: Mtu) -> (r: Transmitter)
        ensures
            r.spec_mtu() == mtu,
            r.queue() == Seq::<Frame>::empty(),
    {
        Transmitter { mtu, frames: Vec::new() }
    }

    /// Returns the MTU
    pub fn mtu(&self) -> (r: Mtu)
        ensures
            r == self.spec_mtu(),
    {
        self.mtu
    }

    /// Returns the queued frames, oldest first
    pub fn frames(&self) -> (r: &[Frame])
        ensures
            r@ == self.queue(),
    {
        self.frames.as_slice()
    }

    /// Removes and returns the oldest queued frame
    pub fn pop_frame(&mut self) -> (r: Option<Frame>)
        ensures
            final(self).spec_mtu() == old(self).spec_mtu(),
            old(self).queue().len() == 0 ==> r is None && final(self).queue() == old(self).queue(),
            old(self).queue().len() > 0 ==> r == Some(old(self).queue()[0]) && final(self).queue()
                == old(self).queue().drop_first(),
    {
        if self.frames.len() == 0 {
            None
        } else {
            Some(self.frames.remove(0))
        }
    }

    /// Builds the bytes that are spread over the frames of a transfer
    fn make_stream(payload: &[u8], mtu: usize) -> (r: Result<Vec<u8>, OutOfMemoryError>)
        requires
            mtu >= 8,
            mtu <= 64,
            payload@.len() <= usize::MAX - 64,
            dlc_round(last_frame_len(payload@.len(), mtu as nat) + 1) <= mtu,
        ensures
            r matches Ok(v) ==> v@ == tx_stream(payload@, mtu as nat),
    {
        proof {
            lemma_frame_layout(payload@.len(), mtu as nat);
        }
        let n = payload.len();
        let single = n + 1 <= mtu;
        let last_len: usize = if single {
            n
        } else {
            let count = (n + 2 + (mtu - 2)) / (mtu - 1);
            assert((count - 1) * (mtu - 1) <= n + 2);
            n + 2 - (count - 1) * (mtu - 1)
        };
        let pad = round_up_dlc(last_len + 1) - (last_len + 1);
        let mut stream: Vec<u8> = Vec::new();
        if try_extend_from_slice(&mut stream, payload).is_err() {
            return Err(OutOfMemoryError);
        }
        let mut i: usize = 0;
        while i < pad
            invariant
                i <= pad,
                stream@ == payload@ + Seq::new(i as nat, |j: int| 0u8),
            decreases pad - i,
        {
            if try_push(&mut stream, 0u8).is_err() {
                return Err(OutOfMemoryError);
            }
            assert(stream@ == payload@ + Seq::new((i + 1) as nat, |j: int| 0u8));
            i = i + 1;
        }
        assert(stream@ == padded(payload@, mtu as nat));
        if !single {
            let mut crc = TransferCrc::new();
            crc.add_bytes(stream.as_slice());
            let value = crc.get();
            let ghost before = stream@;
            if try_push(&mut stream, #[verifier::truncate] ((value >> 8u16) as u8)).is_err() {
                return Err(OutOfMemoryError);
            }
            if try_push(&mut stream, #[verifier::truncate] (value as u8)).is_err() {
                return Err(OutOfMemoryError);
            }
            assert(stream@ == before + crc_bytes(value));
        }
        Ok(stream)
    }

    /// Splits a transfer into frames and adds them to the end of the queue
    ///
    /// Every frame has the CAN ID of the header and the deadline as its timestamp. If memory
    /// runs out, the frames queued before that stay in the queue and an error is returned.
    pub fn push(
        &mut self,
        deadline: Instant,
        header: TransferHeader,
        transfer_id: TransferId,
        payload: &[u8],
    ) -> (r: Result<(), OutOfMemoryError>)
        requires
            payload@.len() <= usize::MAX - 64,
        ensures
            pushed(*old(self), *final(self), deadline, header, transfer_id, payload@, r),
    {
        let mtu = self.mtu.bytes();
        let ghost m = mtu as nat;
        let ghost n = payload@.len();
        let ghost start = self.frames@;
        proof {
            lemma_frame_layout(n, m);
            lemma_dlc_round_fits(last_frame_len(n, m) + 1, self.mtu);
        }
        let id = make_can_id(&header);
        let tid = transfer_id.to_u8();
        let stream = match Self::make_stream(payload, mtu) {
            Ok(stream) => stream,
            Err(e) => {
                assert(self.frames@.subrange(0, start.len() as int) == start);
                assert(frames_of_transfer(
                    self.frames@.subrange(start.len() as int, self.frames@.len() as int),
                    0,
                    deadline,
                    header,
                    transfer_id,
                    payload@,
                    m,
                ));
                return Err(e);
            },
        };
        let chunk = mtu - 1;
        let single = payload.len() + 1 <= mtu;
        let count: usize = if single {
            1
        } else {
            (payload.len() + 2 + (mtu - 2)) / (mtu - 1)
        };
        proof {
            assert(count == frame_count(n, m));
            assert(stream@.len() == (count - 1) * chunk + last_frame_len(n, m) + pad_len(n, m));
            assert((count - 1) * chunk + chunk == count * chunk) by (nonlinear_arith);
        }
        let mut i: usize = 0;
        while i < count
            invariant
                i <= count,
                count == frame_count(n, m),
                chunk == m - 1,
                m == self.mtu.spec_bytes(),
                8 <= m <= 64,
                self.mtu == old(self).mtu,
                stream@ == tx_stream(payload@, m),
                stream@.len() == (count - 1) * chunk + last_frame_len(n, m) + pad_len(n, m),
                last_frame_len(n, m) + pad_len(n, m) <= chunk,
                (count - 1) * chunk + chunk == count * chunk,
                start == old(self).frames@,
                n == payload@.len(),
                n <= usize::MAX - 64,
                self.frames@.len() == start.len() + i,
                self.frames@.subrange(0, start.len() as int) == start,
                frames_of_transfer(
                    self.frames@.subrange(start.len() as int, self.frames@.len() as int),
                    i as nat,
                    deadline,
                    header,
                    transfer_id,
                    payload@,
                    m,
                ),
                id.spec_bits() == spec_can_id_bits(header),
                tid == transfer_id.spec_value(),
            decreases count - i,
        {
            proof {
                assert(i * chunk <= (count - 1) * chunk) by (nonlinear_arith)
                    requires
                        i <= count - 1,
                ;
                assert((i + 1) * chunk == i * chunk + chunk) by (nonlinear_arith);
            }
            let begin = i * chunk;
            let end = if stream.len() - begin >= chunk {
                begin + chunk
            } else {
                stream.len()
            };
            let (_, rest) = stream.as_slice().split_at(begin);
            let (piece, _) = rest.split_at(end - begin);
            assert(piece@ == stream@.subrange(begin as int, end as int));
            let mut data: Vec<u8> = Vec::new();
            if try_extend_from_slice(&mut data, piece).is_err() {
                return Err(OutOfMemoryError);
            }
            let tail = TailByte { start: i == 0, end: i + 1 == count, toggle: i % 2 == 0, transfer_id };
            let tail_bits = tail.to_u8();
            if try_push(&mut data, tail_bits).is_err() {
                return Err(OutOfMemoryError);
            }
            assert(data@ == tx_frame_data(payload@, m, tid, i as nat));
            let ghost before = self.frames@;
            if try_push(&mut self.frames, Frame { timestamp: deadline, id, data }).is_err() {
                return Err(OutOfMemoryError);
            }
            proof {
                let added = self.frames@.subrange(start.len() as int, self.frames@.len() as int);
                let prev = before.subrange(start.len() as int, before.len() as int);
                assert(self.frames@.subrange(0, start.len() as int) == start);
                assert forall|j: int| 0 <= j < i + 1 implies {
                    &&& (#[trigger] added[j]).timestamp == deadline
                    &&& added[j].id.spec_bits() == spec_can_id_bits(header)
                    &&& added[j].data@ == tx_frame_data(
                        payload@,
                        m,
                        transfer_id.spec_value(),
                        j as nat,
                    )
                } by {
                    if j < i {
                        assert(added[j] == prev[j]);
                    }
                }
            }
            i = i + 1;
        }
        Ok(())
    }
}

} // verus!
