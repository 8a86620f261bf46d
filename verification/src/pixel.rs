//! Pixels of four 8-bit channels, and arithmetic modulo 256 on their bytes.

use vstd::prelude::*;
use crate::utils::be_bytes_to_u32;
use crate::utils::be_u32;

verus! {

/// The sum of two bytes, modulo 256.
pub open spec fn wrap_add(a: u8, b: u8) -> u8 {
    ((a + b) % 256) as u8
}

/// The difference of two bytes, modulo 256.
pub open spec fn wrap_sub(a: u8, b: u8) -> u8 {
    ((a - b) % 256) as u8
}

/// Adding a byte undoes subtracting it, and the other way round.
pub proof fn lemma_wrap_add_sub(a: u8, b: u8)
    ensures
        wrap_add(wrap_sub(a, b), b) == a,
        wrap_sub(wrap_add(a, b), b) == a,
{
}

/// One pixel: red, green, blue and alpha, eight bits each.
#[derive(Debug, Clone, Copy, PartialEq, Eq, Structural)]
pub struct Pixel {
    pub r: u8,
    pub g: u8,
    pub b: u8,
    pub a: u8,
}

impl Pixel {
    /// The channels of `self` minus those of `rhs`, each modulo 256.
    pub open spec fn spec_sub(self, rhs: Pixel) -> Pixel {
        Pixel {
            r: wrap_sub(self.r, rhs.r),
            g: wrap_sub(self.g, rhs.g),
            b: wrap_sub(self.b, rhs.b),
            a: wrap_sub(self.a, rhs.a),
        }
    }

    /// The channels of `self` plus those of `rhs`, each modulo 256.
    pub open spec fn spec_add(self, rhs: Pixel) -> Pixel {
        Pixel {
            r: wrap_add(self.r, rhs.r),
            g: wrap_add(self.g, rhs.g),
            b: wrap_add(self.b, rhs.b),
            a: wrap_add(self.a, rhs.a),
        }
    }

    pub fn sub(&self, rhs: &Pixel) -> (diff: Pixel)
        ensures
            diff == self.spec_sub(*rhs),
    {
        Pixel {
            r: Pixel::sub_filter(self.r, rhs.r),
            g: Pixel::sub_filter(self.g, rhs.g),
            b: Pixel::sub_filter(self.b, rhs.b),
            a: Pixel::sub_filter(self.a, rhs.a),
        }
    }

    pub fn add(&self, rhs: &Pixel) -> (sum: Pixel)
        ensures
            sum == self.spec_add(*rhs),
    {
        Pixel {
            r: Pixel::add_filter(self.r, rhs.r),
            g: Pixel::add_filter(self.g, rhs.g),
            b: Pixel::add_filter(self.b, rhs.b),
            a: Pixel::add_filter(self.a, rhs.a),
        }
    }

    /// The word `0xRRGGBBAA`.
    pub fn to_u32(&self) -> (word: u32)
        ensures
            word == be_u32(self.r, self.g, self.b, self.a),
    {
        be_bytes_to_u32(self.r, self.g, self.b, self.a)
    }

    /// What a filter stores for a byte `a` whose prediction is `b`.
    #[inline]
    pub fn sub_filter(a: u8, b: u8) -> (diff: u8)
        ensures
            diff == wrap_sub(a, b),
    {
        a.wrapping_sub(b)
    }

    /// The byte that a filter stored as `a` when its prediction was `b`.
    #[inline]
    pub fn add_filter(a: u8, b: u8) -> (sum: u8)
        ensures
            sum == wrap_add(a, b),
    {
        a.wrapping_add(b)
    }
}

/// Channel by channel, adding a pixel undoes subtracting it, and the other
/// way round.
pub proof fn lemma_pixel_add_sub(p: Pixel, q: Pixel)
    ensures
        p.spec_sub(q).spec_add(q) == p,
        p.spec_add(q).spec_sub(q) == p,
{
    lemma_wrap_add_sub(p.r, q.r);
    lemma_wrap_add_sub(p.g, q.g);
    lemma_wrap_add_sub(p.b, q.b);
    lemma_wrap_add_sub(p.a, q.a);
}

} // verus!
