//! The CRC-32 checksum that guards every chunk.
//!
//! The checksum is defined here bit by bit; the computation itself is left
//! to the `crc32fast` crate.

use vstd::prelude::*;

verus! {

/// One step of the shift register: the state moves one bit to the right and,
/// if a one fell out, the reflected generator polynomial is folded in.
pub open spec fn crc_shift(c: u32) -> u32 {
    if c & 1 == 1 {
        (c >> 1) ^ 0xEDB8_8320
    } else {
        c >> 1
    }
}

/// The state after one more byte: the byte is folded into the low end of the
/// state, which then takes eight steps.
pub open spec fn crc_byte(c: u32, b: u8) -> u32 {
    crc_shift(
        crc_shift(
            crc_shift(crc_shift(crc_shift(crc_shift(crc_shift(crc_shift(c ^ (b as u32))))))),
        ),
    )
}

/// The state after all of `bytes`, starting from state `c`.
pub open spec fn crc_fold(c: u32, bytes: Seq<u8>) -> u32
    decreases bytes.len(),
{
    if bytes.len() == 0 {
        c
    } else {
        crc_byte(crc_fold(c, bytes.drop_last()), bytes.last())
    }
}

/// The CRC-32 checksum of `bytes` (IEEE 802.3, as used by zlib and PNG):
/// the register starts with all bits set, and the result is its complement.
pub open spec fn crc32(bytes: Seq<u8>) -> u32 {
    crc_fold(0xFFFF_FFFF, bytes) ^ 0xFFFF_FFFF
}

/// Calls `crc32fast::hash`, which the crate documents as the CRC-32 (IEEE)
/// checksum of the slice. The contract claims that this is `crc32` of the
/// bytes. The crate's byte-at-a-time routine starts from the complemented
/// state, replaces the state `c` by `T[(c as u8) ^ b] ^ (c >> 8)` for each
/// byte `b`, and complements the result, where `T` is a table of 256
/// entries; `lemma_crc_byte_table_form` shows that `crc_byte` is such a
/// step with `T[i] == crc_byte(0, i)`, and `lemma_crc_table_entries` gives
/// entries to hold the crate's table against. The crate tests its faster
/// routines against that one.
#[verifier::external_body]
pub(crate) fn checksum(bytes: &[u8]) -> (sum: u32)
    ensures
        sum == crc32(bytes@),
{
    crc32fast::hash(bytes)
}

/// A byte step in its table form: the low byte of the state, with the new
/// byte folded in, picks the state that eight steps make of it alone; the
/// rest of the state, moved down by one byte, is folded into that.
pub proof fn lemma_crc_byte_table_form(c: u32, b: u8)
    by (bit_vector)
    ensures
        crc_byte(c, b) == crc_byte(0, (c as u8) ^ b) ^ (c >> 8),
{
}

/// The first entries of the table, and its last.
pub proof fn lemma_crc_table_entries()
    by (bit_vector)
    ensures
        crc_byte(0, 0) == 0,
        crc_byte(0, 1) == 0x7707_3096,
        crc_byte(0, 2) == 0xEE0E_612C,
        crc_byte(0, 3) == 0x9909_51BA,
        crc_byte(0, 255) == 0x2D02_EF8D,
{
}

/// A step of the shift register loses nothing: from the state after it the
/// state before it can be told.
pub proof fn lemma_crc_shift_injective(x: u32, y: u32)
    by (bit_vector)
    requires
        crc_shift(x) == crc_shift(y),
    ensures
        x == y,
{
}

/// Two byte steps that end in the same state started from states that,
/// with the byte folded in, were the same.
pub proof fn lemma_crc_byte_injective(c1: u32, b1: u8, c2: u32, b2: u8)
    requires
        crc_byte(c1, b1) == crc_byte(c2, b2),
    ensures
        c1 ^ (b1 as u32) == c2 ^ (b2 as u32),
{
    let x0: u32 = c1 ^ (b1 as u32);
    let y0: u32 = c2 ^ (b2 as u32);
    let x1 = crc_shift(x0);
    let y1 = crc_shift(y0);
    let x2 = crc_shift(x1);
    let y2 = crc_shift(y1);
    let x3 = crc_shift(x2);
    let y3 = crc_shift(y2);
    let x4 = crc_shift(x3);
    let y4 = crc_shift(y3);
    let x5 = crc_shift(x4);
    let y5 = crc_shift(y4);
    let x6 = crc_shift(x5);
    let y6 = crc_shift(y5);
    let x7 = crc_shift(x6);
    let y7 = crc_shift(y6);
    lemma_crc_shift_injective(x7, y7);
    lemma_crc_shift_injective(x6, y6);
    lemma_crc_shift_injective(x5, y5);
    lemma_crc_shift_injective(x4, y4);
    lemma_crc_shift_injective(x3, y3);
    lemma_crc_shift_injective(x2, y2);
    lemma_crc_shift_injective(x1, y1);
    lemma_crc_shift_injective(x0, y0);
}

proof fn lemma_xor_cancel(c1: u32, b1: u8, c2: u32, b2: u8)
    by (bit_vector)
    requires
        c1 ^ (b1 as u32) == c2 ^ (b2 as u32),
    ensures
        c1 == c2 ==> b1 == b2,
        b1 == b2 ==> c1 == c2,
{
}

proof fn lemma_complement_injective(x: u32, y: u32)
    by (bit_vector)
    requires
        x ^ 0xFFFF_FFFF == y ^ 0xFFFF_FFFF,
    ensures
        x == y,
{
}

/// Two byte strings of one length that differ in exactly one byte leave the
/// register, started from one state, in different states.
pub proof fn lemma_crc_fold_detects_byte(c: u32, s: Seq<u8>, t: Seq<u8>, k: int)
    requires
        s.len() == t.len(),
        0 <= k < s.len(),
        s[k] != t[k],
        forall|j: int| 0 <= j < s.len() && j != k ==> s[j] == t[j],
    ensures
        crc_fold(c, s) != crc_fold(c, t),
    decreases s.len(),
{
    // Before the last byte the states are equal if the strings differ in
    // the last byte, and differ if the strings differ earlier. Either way
    // the last byte step cannot bring them together.
    let cs = crc_fold(c, s.drop_last());
    let ct = crc_fold(c, t.drop_last());
    if k == s.len() - 1 {
        assert(s.drop_last() =~= t.drop_last());
    } else {
        lemma_crc_fold_detects_byte(c, s.drop_last(), t.drop_last(), k);
    }
    if crc_fold(c, s) == crc_fold(c, t) {
        lemma_crc_byte_injective(cs, s.last(), ct, t.last());
        lemma_xor_cancel(cs, s.last(), ct, t.last());
    }
}

/// CRC-32 detects every change that is confined to one byte: two byte
/// strings of one length that differ in exactly one byte have different
/// checksums. A single flipped bit is such a change.
pub proof fn lemma_crc32_detects_byte(s: Seq<u8>, t: Seq<u8>, k: int)
    requires
        s.len() == t.len(),
        0 <= k < s.len(),
        s[k] != t[k],
        forall|j: int| 0 <= j < s.len() && j != k ==> s[j] == t[j],
    ensures
        crc32(s) != crc32(t),
{
    lemma_crc_fold_detects_byte(0xFFFF_FFFF, s, t, k);
    if crc32(s) == crc32(t) {
        lemma_complement_injective(crc_fold(0xFFFF_FFFF, s), crc_fold(0xFFFF_FFFF, t));
    }
}

/// The byte `b` with bit number `bit` flipped.
pub open spec fn flip_bit(b: u8, bit: int) -> u8 {
    b ^ (1u8 << (bit as u8))
}

/// Flipping one of its eight bits changes a byte.
pub proof fn lemma_flip_bit_changes(b: u8, bit: int)
    requires
        0 <= bit < 8,
    ensures
        flip_bit(b, bit) != b,
{
    let n: u8 = bit as u8;
    assert(b ^ (1u8 << n) != b) by (bit_vector)
        requires
            n < 8,
    ;
}

/// One step of the shift register.
fn shift(c: u32) -> (next: u32)
    ensures
        next == crc_shift(c),
{
    if c & 1 == 1 {
        (c >> 1) ^ 0xEDB8_8320
    } else {
        c >> 1
    }
}

/// Evaluates the definition of the checksum, bit by bit. The decoder does
/// not use it: it is slow, and stands here so that the routine that the
/// decoder does use can be held against the definition.
pub fn crc32_bitwise(bytes: &[u8]) -> (sum: u32)
    ensures
        sum == crc32(bytes@),
{
    let mut c: u32 = 0xFFFF_FFFF;
    let mut i: usize = 0;
    while i < bytes.len()
        invariant
            i <= bytes@.len(),
            c == crc_fold(0xFFFF_FFFF, bytes@.take(i as int)),
        decreases bytes@.len() - i,
    {
        assert(bytes@.take(i + 1).drop_last() =~= bytes@.take(i as int));
        let x = c ^ (bytes[i] as u32);
        c = shift(shift(shift(shift(shift(shift(shift(shift(x))))))));
        i += 1;
    }
    assert(bytes@.take(i as int) =~= bytes@);
    c ^ 0xFFFF_FFFF
}

} // verus!
