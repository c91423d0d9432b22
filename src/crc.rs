//! The transfer CRC: CRC-16/CCITT-FALSE (polynomial 0x1021, initial value 0xFFFF, no
//! reflection, no final XOR).
use vstd::prelude::*;

verus! {

/// Initial value of the transfer CRC
pub const CRC_INITIAL: u16 = 0xffff;

/// One shift of the CRC register, with the polynomial applied when the top bit falls out
pub open spec fn crc_round(c: u16) -> u16 {
    if c & 0x8000 != 0 {
        ((c << 1u16) ^ 0x1021u16) as u16
    } else {
        (c << 1u16) as u16
    }
}

/// The CRC register after one more byte
pub open spec fn crc_add_byte(c: u16, b: u8) -> u16 {
    let x = c ^ ((b as u16) << 8u16);
    crc_round(crc_round(crc_round(crc_round(crc_round(crc_round(crc_round(crc_round(x))))))))
}

/// The CRC register after the bytes `s`, starting from `init`
pub open spec fn crc_fold(init: u16, s: Seq<u8>) -> u16
    decreases s.len(),
{
    if s.len() == 0 {
        init
    } else {
        crc_add_byte(crc_fold(init, s.drop_last()), s.last())
    }
}

/// The transfer CRC of a byte sequence
pub open spec fn transfer_crc(s: Seq<u8>) -> u16 {
    crc_fold(CRC_INITIAL, s)
}

/// The two bytes of a CRC value, most significant first
pub open spec fn crc_bytes(c: u16) -> Seq<u8> {
    seq![(c >> 8u16) as u8, c as u8]
}

/// Running CRC computation over transfer bytes
#[derive(Debug, Clone, Copy)]
pub struct TransferCrc {
    pub(crate) value: u16,
}

fn round(c: u16) -> (r: u16)
    ensures
        r == crc_round(c),
{
    if c & 0x8000 != 0 {
        (c << 1u16) ^ 0x1021u16
    } else {
        c << 1u16
    }
}

impl TransferCrc {
    /// The current CRC value
    pub open(crate) spec fn spec_value(self) -> u16 {
        self.value
    }

    /// Creates a CRC in its initial state
    pub fn new() -> (r: TransferCrc)
        ensures
            r.spec_value() == CRC_INITIAL,
    {
        TransferCrc { value: CRC_INITIAL }
    }

    /// Adds one byte
    pub fn add(&mut self, byte: u8)
        ensures
            final(self).spec_value() == crc_add_byte(old(self).spec_value(), byte),
    {
        let x = self.value ^ ((byte as u16) << 8u16);
        self.value = round(round(round(round(round(round(round(round(x))))))));
    }

    /// Adds a sequence of bytes
    pub fn add_bytes(&mut self, bytes: &[u8])
        ensures
            final(self).spec_value() == crc_fold(old(self).spec_value(), bytes@),
    {
        let ghost init = self.value;
        let mut i: usize = 0;
        while i < bytes.len()
            invariant
                i <= bytes@.len(),
                self.value == crc_fold(init, bytes@.subrange(0, i as int)),
            decreases bytes@.len() - i,
        {
            let ghost prefix = bytes@.subrange(0, i as int);
            self.add(bytes[i]);
            assert(bytes@.subrange(0, i + 1).drop_last() == prefix);
            i = i + 1;
        }
        assert(bytes@.subrange(0, i as int) == bytes@);
    }

    /// Returns the current CRC value
    pub fn get(&self) -> (r: u16)
        ensures
            r == self.spec_value(),
    {
        self.value
    }
}

/// Appending two bytes to a fold is two more steps.
pub proof fn lemma_crc_fold_push2(init: u16, s: Seq<u8>, a: u8, b: u8)
    ensures
        crc_fold(init, s + seq![a, b]) == crc_add_byte(crc_add_byte(crc_fold(init, s), a), b),
{
    let t = s + seq![a, b];
    assert(t.drop_last() == s.push(a));
    assert(t.last() == b);
    assert(s.push(a).drop_last() == s);
    assert(s.push(a).last() == a);
    assert(crc_fold(init, t) == crc_add_byte(crc_fold(init, s.push(a)), b));
    assert(crc_fold(init, s.push(a)) == crc_add_byte(crc_fold(init, s), a));
}

/// Shifting a value whose high byte is clear eight times never lets the polynomial in.
proof fn lemma_rounds_of_low_byte(x: u16)
    requires
        x < 256,
    ensures
        crc_round(crc_round(crc_round(crc_round(crc_round(crc_round(crc_round(crc_round(x))))))))
            == (x << 8u16),
{
    assert(x & 0x8000 == 0 && (x << 1u16) & 0x8000 == 0 && (x << 2u16) & 0x8000 == 0 && (x
        << 3u16) & 0x8000 == 0 && (x << 4u16) & 0x8000 == 0 && (x << 5u16) & 0x8000 == 0 && (x
        << 6u16) & 0x8000 == 0 && (x << 7u16) & 0x8000 == 0) by (bit_vector)
        requires
            x < 256,
    ;
    assert((x << 1u16) << 1u16 == x << 2u16 && (x << 2u16) << 1u16 == x << 3u16 && (x << 3u16)
        << 1u16 == x << 4u16 && (x << 4u16) << 1u16 == x << 5u16 && (x << 5u16) << 1u16 == x
        << 6u16 && (x << 6u16) << 1u16 == x << 7u16 && (x << 7u16) << 1u16 == x << 8u16)
        by (bit_vector);
}

/// Feeding a CRC register its own value, most significant byte first, clears it.
pub proof fn lemma_crc_residue(c: u16)
    ensures
        crc_add_byte(crc_add_byte(c, (c >> 8u16) as u8), c as u8) == 0,
{
    let hi = (c >> 8u16) as u8;
    let lo = c as u8;
    let x1 = c ^ ((hi as u16) << 8u16);
    assert(x1 == c & 0xff && x1 < 256) by (bit_vector)
        requires
            x1 == c ^ ((((c >> 8u16) as u8) as u16) << 8u16),
    ;
    lemma_rounds_of_low_byte(x1);
    let c1 = x1 << 8u16;
    let x2 = c1 ^ ((lo as u16) << 8u16);
    assert(x2 == 0) by (bit_vector)
        requires
            c1 == (c & 0xff) << 8u16,
            x2 == c1 ^ (((c as u8) as u16) << 8u16),
    ;
    lemma_rounds_of_low_byte(x2);
    assert((0u16 << 8u16) == 0) by (bit_vector);
}

/// The transfer CRC of a byte sequence followed by its own CRC, most significant byte first,
/// is zero.
pub proof fn lemma_crc_of_appended_crc(s: Seq<u8>)
    ensures
        transfer_crc(s + crc_bytes(transfer_crc(s))) == 0,
{
    let c = transfer_crc(s);
    lemma_crc_fold_push2(CRC_INITIAL, s, (c >> 8u16) as u8, c as u8);
    lemma_crc_residue(c);
}

/// Different registers stay different after one round.
proof fn lemma_round_injective(x: u16, y: u16)
    requires
        x != y,
    ensures
        crc_round(x) != crc_round(y),
{
    assert((if x & 0x8000 != 0 {
        ((x << 1u16) ^ 0x1021u16) as u16
    } else {
        (x << 1u16) as u16
    }) != (if y & 0x8000 != 0 {
        ((y << 1u16) ^ 0x1021u16) as u16
    } else {
        (y << 1u16) as u16
    })) by (bit_vector)
        requires
            x != y,
    ;
}

/// Different registers stay different after the eight rounds of a byte.
proof fn lemma_rounds_injective(x: u16, y: u16)
    requires
        x != y,
    ensures
        crc_round(crc_round(crc_round(crc_round(crc_round(crc_round(crc_round(crc_round(x))))))))
            != crc_round(
            crc_round(crc_round(crc_round(crc_round(crc_round(crc_round(crc_round(y))))))),
        ),
{
    lemma_round_injective(x, y);
    lemma_round_injective(crc_round(x), crc_round(y));
    lemma_round_injective(crc_round(crc_round(x)), crc_round(crc_round(y)));
    lemma_round_injective(
        crc_round(crc_round(crc_round(x))),
        crc_round(crc_round(crc_round(y))),
    );
    lemma_round_injective(
        crc_round(crc_round(crc_round(crc_round(x)))),
        crc_round(crc_round(crc_round(crc_round(y)))),
    );
    lemma_round_injective(
        crc_round(crc_round(crc_round(crc_round(crc_round(x))))),
        crc_round(crc_round(crc_round(crc_round(crc_round(y))))),
    );
    lemma_round_injective(
        crc_round(crc_round(crc_round(crc_round(crc_round(crc_round(x)))))),
        crc_round(crc_round(crc_round(crc_round(crc_round(crc_round(y)))))),
    );
    lemma_round_injective(
        crc_round(crc_round(crc_round(crc_round(crc_round(crc_round(crc_round(x))))))),
        crc_round(crc_round(crc_round(crc_round(crc_round(crc_round(crc_round(y))))))),
    );
}

/// Folding the same bytes into different registers gives different registers.
proof fn lemma_fold_distinct(c1: u16, c2: u16, q: Seq<u8>)
    requires
        c1 != c2,
    ensures
        crc_fold(c1, q) != crc_fold(c2, q),
    decreases q.len(),
{
    if q.len() > 0 {
        lemma_fold_distinct(c1, c2, q.drop_last());
        let a = crc_fold(c1, q.drop_last());
        let b = crc_fold(c2, q.drop_last());
        let x = q.last();
        assert(a ^ ((x as u16) << 8u16) != b ^ ((x as u16) << 8u16)) by (bit_vector)
            requires
                a != b,
        ;
        lemma_rounds_injective(a ^ ((x as u16) << 8u16), b ^ ((x as u16) << 8u16));
    }
}

/// Folding a concatenation is folding its second part into the register of its first part.
proof fn lemma_fold_append(init: u16, p: Seq<u8>, q: Seq<u8>)
    ensures
        crc_fold(init, p + q) == crc_fold(crc_fold(init, p), q),
    decreases q.len(),
{
    if q.len() == 0 {
        assert(p + q == p);
    } else {
        lemma_fold_append(init, p, q.drop_last());
        assert((p + q).drop_last() == p + q.drop_last());
        assert((p + q).last() == q.last());
    }
}

/// Changing any one byte of a sequence changes its transfer CRC.
pub proof fn lemma_crc_detects_changed_byte(s: Seq<u8>, i: int, b: u8)
    requires
        0 <= i < s.len(),
        b != s[i],
    ensures
        transfer_crc(s.update(i, b)) != transfer_crc(s),
{
    let t = s.update(i, b);
    let p = s.subrange(0, i);
    let q = s.subrange(i + 1, s.len() as int);
    assert(s == p.push(s[i]) + q);
    assert(t == p.push(b) + q);
    lemma_fold_append(CRC_INITIAL, p.push(s[i]), q);
    lemma_fold_append(CRC_INITIAL, p.push(b), q);
    assert(p.push(s[i]).drop_last() == p);
    assert(p.push(b).drop_last() == p);
    let c = crc_fold(CRC_INITIAL, p);
    let x = s[i];
    assert(c ^ ((x as u16) << 8u16) != c ^ ((b as u16) << 8u16)) by (bit_vector)
        requires
            x != b,
    ;
    lemma_rounds_injective(c ^ ((x as u16) << 8u16), c ^ ((b as u16) << 8u16));
    lemma_fold_distinct(crc_fold(CRC_INITIAL, p.push(x)), crc_fold(CRC_INITIAL, p.push(b)), q);
}

/// A multi-frame transfer whose reassembled bytes pass the CRC check no longer passes it when
/// any one of those bytes is changed, so the receiver drops it.
pub proof fn lemma_corrupted_transfer_fails_crc(all: Seq<u8>, i: int, b: u8)
    requires
        transfer_crc(all) == 0,
        0 <= i < all.len(),
        b != all[i],
    ensures
        transfer_crc(all.update(i, b)) != 0,
{
    lemma_crc_detects_changed_byte(all, i, b);
}

} // verus!
