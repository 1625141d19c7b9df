//! Colors: three 8-bit channels and a fixed-point linear interpolation.

use vstd::prelude::*;

verus! {

/// A color with three 8-bit channels and no alpha; consumers assume full
/// opacity.
#[derive(Clone, Copy, PartialEq, Eq, Structural, Debug)]
pub struct Pixel {
    pub r: u8,
    pub g: u8,
    pub b: u8,
}

/// Scale factor for blend weights: a weight of `WEIGHT_SCALE` means "entirely
/// the first color", a weight of `0` "entirely the second".
pub const WEIGHT_SCALE: u32 = 1000;

/// One channel of a linear interpolation between `a` and `b` with weight
/// `w / WEIGHT_SCALE` on `a`, truncated to an integer.
pub open spec fn blend_channel_spec(a: int, b: int, w: int) -> int {
    (a * w + b * (WEIGHT_SCALE - w)) / (WEIGHT_SCALE as int)
}

impl Pixel {
    /// Decode a color from a `0xRRGGBB` literal.
    pub fn from_hex(literal: u32) -> (p: Pixel)
        ensures
            p.r == (literal >> 16) & 0xFF,
            p.g == (literal >> 8) & 0xFF,
            p.b == literal & 0xFF,
    {
        proof {
            assert(((literal & 0xFF0000) >> 16) < 256 && ((literal & 0xFF0000) >> 16) == ((literal
                >> 16) & 0xFF)) by (bit_vector);
            assert(((literal & 0xFF00) >> 8) < 256 && ((literal & 0xFF00) >> 8) == ((literal >> 8)
                & 0xFF)) by (bit_vector);
            assert((literal & 0xFF) < 256) by (bit_vector);
        }
        Pixel {
            r: ((literal & 0xFF0000) >> 16) as u8,
            g: ((literal & 0xFF00) >> 8) as u8,
            b: (literal & 0xFF) as u8,
        }
    }

    /// Linear interpolation towards `o`: each channel becomes
    /// `self * w + o * (WEIGHT_SCALE - w)`, scaled back down and truncated.
    /// `w` is a fixed-point weight in `[0, WEIGHT_SCALE]`.
    pub fn blend(&self, o: Pixel, w: u32) -> (out: Pixel)
        requires
            w <= WEIGHT_SCALE,
        ensures
            out.r == blend_channel_spec(self.r as int, o.r as int, w as int),
            out.g == blend_channel_spec(self.g as int, o.g as int, w as int),
            out.b == blend_channel_spec(self.b as int, o.b as int, w as int),
    {
        Pixel {
            r: blend_channel(self.r, o.r, w),
            g: blend_channel(self.g, o.g, w),
            b: blend_channel(self.b, o.b, w),
        }
    }
}

/// Channel-level interpolation; the scaled sum stays below `2^32` and the
/// quotient below `256`.
fn blend_channel(a: u8, b: u8, w: u32) -> (out: u8)
    requires
        w <= WEIGHT_SCALE,
    ensures
        out == blend_channel_spec(a as int, b as int, w as int),
{
    proof {
        assert(a * w + b * (WEIGHT_SCALE - w) <= 255 * (WEIGHT_SCALE as int)) by (nonlinear_arith)
            requires
                a <= 255 && b <= 255 && w <= WEIGHT_SCALE,
        ;
    }
    ((a as u32 * w + b as u32 * (1000 - w)) / 1000) as u8
}

} // verus!
