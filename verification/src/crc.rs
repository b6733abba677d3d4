//! The frame checksum: a sum of bytes that wraps at sixteen bits.
use vstd::prelude::*;

verus! {

/// The plain sum of `bytes`, without any wrapping.
pub open spec fn byte_sum(bytes: Seq<u8>) -> nat
    decreases bytes.len(),
{
    if bytes.len() == 0 {
        0
    } else {
        byte_sum(bytes.drop_last()) + bytes.last() as nat
    }
}

/// The checksum of `bytes`: their sum modulo 2^16.
pub open spec fn checksum_of(bytes: Seq<u8>) -> u16 {
    (byte_sum(bytes) % 0x1_0000) as u16
}

/// The checksum that follows `acc` once `value` has been folded in.
pub open spec fn fold_byte(acc: u16, value: u8) -> u16 {
    ((acc + value) % 0x1_0000) as u16
}

/// A running checksum. Folding a byte in never fails: a carry out of the
/// sixteenth bit is dropped.
#[derive(Debug, PartialEq, Eq, Structural, Clone, Copy)]
pub struct CRC(u16);

impl View for CRC {
    type V = u16;

    closed spec fn view(&self) -> u16 {
        self.0
    }
}

impl CRC {
    /// A checksum that has seen the single byte `value`.
    pub fn new(value: u8) -> (crc: CRC)
        ensures
            crc@ == value,
    {
        CRC(value as u16)
    }

    /// A checksum with the given accumulated value.
    pub fn from_u16(value: u16) -> (crc: CRC)
        ensures
            crc@ == value,
    {
        CRC(value)
    }

    /// The checksum of `bytes`, folded from zero.
    pub fn from_bytes(bytes: &[u8]) -> (crc: CRC)
        ensures
            crc@ == checksum_of(bytes@),
    {
        let mut crc = CRC::new(0);
        let mut i: usize = 0;
        assert(bytes@.take(0) =~= Seq::<u8>::empty());
        while i < bytes.len()
            invariant
                i <= bytes.len(),
                crc@ == checksum_of(bytes@.take(i as int)),
            decreases bytes.len() - i,
        {
            proof {
                lemma_checksum_push(bytes@.take(i as int), bytes[i as int]);
                assert(bytes@.take(i as int).push(bytes[i as int]) =~= bytes@.take(i + 1));
            }
            crc = crc.calculate_next(bytes[i]);
            i += 1;
        }
        assert(bytes@.take(i as int) =~= bytes@);
        crc
    }

    /// The checksum after one more byte.
    pub fn calculate_next(&self, value: u8) -> (crc: CRC)
        ensures
            crc@ == fold_byte(self@, value),
    {
        CRC(self.0.wrapping_add(value as u16))
    }

    /// The accumulated value.
    pub fn as_u16(&self) -> (value: u16)
        ensures
            value == self@,
    {
        self.0
    }
}

/// Appending a byte to a sequence folds that byte into its checksum.
pub proof fn lemma_checksum_push(bytes: Seq<u8>, value: u8)
    ensures
        checksum_of(bytes.push(value)) == fold_byte(checksum_of(bytes), value),
{
    let longer = bytes.push(value);
    assert(longer.drop_last() =~= bytes);
    assert(byte_sum(longer) == byte_sum(bytes) + value as nat);
    let s = byte_sum(bytes) as int;
    let v = value as int;
    assert((s + v) % 0x1_0000 == ((s % 0x1_0000) + v) % 0x1_0000) by {
        vstd::arithmetic::div_mod::lemma_add_mod_noop(s, v, 0x1_0000);
        vstd::arithmetic::div_mod::lemma_small_mod(v as nat, 0x1_0000);
    }
}

/// Replacing one byte changes the plain sum by the difference of the two.
pub proof fn lemma_byte_sum_update(bytes: Seq<u8>, at: int, value: u8)
    requires
        0 <= at < bytes.len(),
    ensures
        byte_sum(bytes.update(at, value)) == byte_sum(bytes) - bytes[at] + value,
    decreases bytes.len(),
{
    let updated = bytes.update(at, value);
    if at == bytes.len() - 1 {
        assert(updated.drop_last() =~= bytes.drop_last());
    } else {
        lemma_byte_sum_update(bytes.drop_last(), at, value);
        assert(updated.drop_last() =~= bytes.drop_last().update(at, value));
    }
}

/// The checksum notices every change of a single byte.
pub proof fn lemma_checksum_detects_change(bytes: Seq<u8>, at: int, value: u8)
    requires
        0 <= at < bytes.len(),
        value != bytes[at],
    ensures
        checksum_of(bytes.update(at, value)) != checksum_of(bytes),
{
    lemma_byte_sum_update(bytes, at, value);
    let before = byte_sum(bytes) as int;
    let after = byte_sum(bytes.update(at, value)) as int;
    assert(after != before && -0x1_0000 < after - before < 0x1_0000);
    if after % 0x1_0000 == before % 0x1_0000 {
        vstd::arithmetic::div_mod::lemma_fundamental_div_mod(after, 0x1_0000);
        vstd::arithmetic::div_mod::lemma_fundamental_div_mod(before, 0x1_0000);
        let qa = after / 0x1_0000;
        let qb = before / 0x1_0000;
        assert(after - before == 0x1_0000 * (qa - qb)) by (nonlinear_arith)
            requires
                after == 0x1_0000 * qa + after % 0x1_0000,
                before == 0x1_0000 * qb + before % 0x1_0000,
                after % 0x1_0000 == before % 0x1_0000,
        ;
        assert(qa == qb) by (nonlinear_arith)
            requires
                after - before == 0x1_0000 * (qa - qb),
                -0x1_0000 < after - before < 0x1_0000,
        ;
        assert(false);
    }
}

} // verus!
