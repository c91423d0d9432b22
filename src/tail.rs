//! The tail byte: the last data byte of every frame, holding the start-of-transfer,
//! end-of-transfer and toggle bits and the transfer ID.
use vstd::prelude::*;

use crate::ids::TransferId;

verus! {

/// The fields of a tail byte
#[derive(Debug, Clone, Copy, PartialEq, Eq, Structural)]
pub struct TailByte {
    /// True in the first frame of a transfer
    pub start: bool,
    /// True in the last frame of a transfer
    pub end: bool,
    /// Alternates from frame to frame, starting at true
    pub toggle: bool,
    /// The transfer ID
    pub transfer_id: TransferId,
}

/// The byte value of a tail byte: `start << 7 | end << 6 | toggle << 5 | transfer_id`
pub open spec fn spec_tail_bits(start: bool, end: bool, toggle: bool, transfer_id: u8) -> u8 {
    ((if start {
        0x80u8
    } else {
        0u8
    }) | (if end {
        0x40u8
    } else {
        0u8
    }) | (if toggle {
        0x20u8
    } else {
        0u8
    }) | transfer_id) as u8
}

impl TailByte {
    /// The byte value of this tail byte
    pub open(crate) spec fn spec_bits(self) -> u8 {
        spec_tail_bits(self.start, self.end, self.toggle, self.transfer_id.spec_value())
    }

    /// The tail byte that a byte value describes
    pub open(crate) spec fn spec_parse(bits: u8) -> TailByte {
        TailByte {
            start: bits & 0x80 != 0,
            end: bits & 0x40 != 0,
            toggle: bits & 0x20 != 0,
            transfer_id: TransferId { value: bits & 0x1f },
        }
    }

    /// Parses a tail byte
    pub fn parse(bits: u8) -> (r: TailByte)
        ensures
            r == TailByte::spec_parse(bits),
    {
        let transfer_id = TransferId::from_truncating(bits);
        TailByte {
            start: bits & 0x80 != 0,
            end: bits & 0x40 != 0,
            toggle: bits & 0x20 != 0,
            transfer_id,
        }
    }

    /// Returns the byte value of this tail byte
    pub fn to_u8(&self) -> (r: u8)
        ensures
            r == self.spec_bits(),
    {
        let tid = self.transfer_id.to_u8();
        let s: u8 = if self.start {
            0x80
        } else {
            0
        };
        let e: u8 = if self.end {
            0x40
        } else {
            0
        };
        let t: u8 = if self.toggle {
            0x20
        } else {
            0
        };
        s | e | t | tid
    }
}

/// Parsing the byte value of a tail byte gives back its fields.
pub proof fn lemma_tail_round_trip(start: bool, end: bool, toggle: bool, transfer_id: u8)
    requires
        transfer_id <= 31,
    ensures
        TailByte::spec_parse(spec_tail_bits(start, end, toggle, transfer_id)).start == start,
        TailByte::spec_parse(spec_tail_bits(start, end, toggle, transfer_id)).end == end,
        TailByte::spec_parse(spec_tail_bits(start, end, toggle, transfer_id)).toggle == toggle,
        TailByte::spec_parse(
            spec_tail_bits(start, end, toggle, transfer_id),
        ).transfer_id.spec_value() == transfer_id,
{
    let s: u8 = if start {
        0x80u8
    } else {
        0u8
    };
    let e: u8 = if end {
        0x40u8
    } else {
        0u8
    };
    let t: u8 = if toggle {
        0x20u8
    } else {
        0u8
    };
    let b = s | e | t | transfer_id;
    assert(((b & 0x80 != 0) == (s != 0)) && ((b & 0x40 != 0) == (e != 0)) && ((b & 0x20 != 0)
        == (t != 0)) && (b & 0x1f == transfer_id)) by (bit_vector)
        requires
            b == s | e | t | transfer_id,
            s == 0 || s == 0x80,
            e == 0 || e == 0x40,
            t == 0 || t == 0x20,
            transfer_id <= 31,
    ;
}

} // verus!
