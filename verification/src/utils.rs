//! Small helpers shared by the decoder: colour-type predicates, big-endian
//! integers and packing of a pixel into a display word.

use vstd::prelude::*;

verus! {

/// The unsigned integer whose big-endian digits, base 256, are `b0 b1 b2 b3`.
pub open spec fn be_u32(b0: u8, b1: u8, b2: u8, b3: u8) -> int {
    b0 as int * 0x100_0000 + b1 as int * 0x1_0000 + b2 as int * 0x100 + b3 as int
}

/// The big-endian 32-bit integer stored in `bytes` at offset `at`.
pub open spec fn be_u32_at(bytes: Seq<u8>, at: int) -> int
    recommends
        0 <= at,
        at + 4 <= bytes.len(),
{
    be_u32(bytes[at], bytes[at + 1], bytes[at + 2], bytes[at + 3])
}

/// The display word `0xAARRGGBB` of a pixel.
pub open spec fn argb_word(r: u8, g: u8, b: u8, a: u8) -> int {
    a as int * 0x100_0000 + r as int * 0x1_0000 + g as int * 0x100 + b as int
}

pub fn is_grayscale(color_type: u8) -> (yes: bool)
    ensures
        yes == (color_type == 0),
{
    color_type == 0
}

pub fn is_true_color(color_type: u8) -> (yes: bool)
    ensures
        yes == (color_type == 2),
{
    color_type == 2
}

pub fn is_indexed_color(color_type: u8) -> (yes: bool)
    ensures
        yes == (color_type == 3),
{
    color_type == 3
}

pub fn is_grayscale_with_alpha(color_type: u8) -> (yes: bool)
    ensures
        yes == (color_type == 4),
{
    color_type == 4
}

pub fn is_true_color_with_alpha(color_type: u8) -> (yes: bool)
    ensures
        yes == (color_type == 6),
{
    color_type == 6
}

/// Combines four bytes, most significant first, into one 32-bit value.
pub fn be_bytes_to_u32(b0: u8, b1: u8, b2: u8, b3: u8) -> (value: u32)
    ensures
        value == be_u32(b0, b1, b2, b3),
{
    let w0: u32 = b0 as u32;
    let w1: u32 = b1 as u32;
    let w2: u32 = b2 as u32;
    let w3: u32 = b3 as u32;
    assert((w0 << 24 | w1 << 16 | w2 << 8 | w3) == w0 * 0x100_0000 + w1 * 0x1_0000 + w2 * 0x100
        + w3) by (bit_vector)
        requires
            w0 < 256,
            w1 < 256,
            w2 < 256,
            w3 < 256,
    ;
    w0 << 24 | w1 << 16 | w2 << 8 | w3
}

/// Reads the big-endian 32-bit integer held by a four-byte slice.
pub fn u8_4_to_usize(bytes: &[u8]) -> (value: usize)
    requires
        bytes@.len() == 4,
    ensures
        value == be_u32_at(bytes@, 0),
{
    be_bytes_to_u32(bytes[0], bytes[1], bytes[2], bytes[3]) as usize
}

/// Packs the first four bytes of `rgba`, taken as red, green, blue and
/// alpha, into the display word `0xAARRGGBB`.
pub fn rgba_to_u32(rgba: &[u8]) -> (word: u32)
    requires
        rgba@.len() >= 4,
    ensures
        word == argb_word(rgba@[0], rgba@[1], rgba@[2], rgba@[3]),
{
    be_bytes_to_u32(rgba[3], rgba[0], rgba[1], rgba[2])
}

} // verus!
