//! The RGBA color value type and the exact (integer-valued) distance metrics
//! used for nearest-color search over the fixed terminal palette.

use vstd::prelude::*;

verus! {

/// A color as four 8-bit channels. A value type: equality is by channel
/// values, alpha included.
#[derive(Clone, Copy, PartialEq, Eq, Structural, Debug)]
pub struct RGBColor {
    pub red: u8,
    pub green: u8,
    pub blue: u8,
    pub alpha: u8,
}

/// An alternate name for the same color value type, kept so that callers
/// written against either name compile unchanged.
pub type BitMapColor = RGBColor;

/// The big-endian packing of a color into 32 bits: red in the highest byte,
/// then green, blue, and alpha in the lowest byte.
pub open spec fn spec_key_be(c: RGBColor) -> int {
    c.alpha + c.blue * 0x100 + c.green * 0x1_0000 + c.red * 0x100_0000
}

/// The little-endian packing of a color into 32 bits: alpha in the highest
/// byte, then blue, green, and red in the lowest byte.
pub open spec fn spec_key_le(c: RGBColor) -> int {
    c.red + c.green * 0x100 + c.blue * 0x1_0000 + c.alpha * 0x100_0000
}

/// The Manhattan distance between two colors over the red, green and blue
/// channels. Alpha is excluded from all distance calculations.
pub open spec fn spec_manhattan_rgb(a: RGBColor, b: RGBColor) -> int {
    abs_diff(a.red as int, b.red as int)
        + abs_diff(a.green as int, b.green as int)
        + abs_diff(a.blue as int, b.blue as int)
}

/// The square of the Euclidean distance between two colors over the red,
/// green and blue channels. Ordering colors by this value orders them by
/// Euclidean distance, since squaring is monotonic on non-negative reals.
pub open spec fn spec_euclidean_sq_rgb(a: RGBColor, b: RGBColor) -> int {
    sq(abs_diff(a.red as int, b.red as int)) + sq(abs_diff(a.green as int, b.green as int)) + sq(
        abs_diff(a.blue as int, b.blue as int),
    )
}

/// The color whose big-endian packing is `v`: the inverse of
/// `spec_key_be` on 32-bit values.
pub open spec fn spec_color_from_key_be(v: int) -> RGBColor {
    RGBColor {
        alpha: (v % 0x100) as u8,
        blue: ((v / 0x100) % 0x100) as u8,
        green: ((v / 0x1_0000) % 0x100) as u8,
        red: ((v / 0x100_0000) % 0x100) as u8,
    }
}

/// The color whose little-endian packing is `v`: the inverse of
/// `spec_key_le` on 32-bit values.
pub open spec fn spec_color_from_key_le(v: int) -> RGBColor {
    RGBColor {
        red: (v % 0x100) as u8,
        green: ((v / 0x100) % 0x100) as u8,
        blue: ((v / 0x1_0000) % 0x100) as u8,
        alpha: ((v / 0x100_0000) % 0x100) as u8,
    }
}

pub open spec fn abs_diff(a: int, b: int) -> int {
    if a >= b {
        a - b
    } else {
        b - a
    }
}

pub open spec fn sq(x: int) -> int {
    x * x
}

impl BitMapColor {
    /// Pack the channels into a `u32`, with red in the highest byte when
    /// `big_endian` is set and in the lowest byte otherwise.
    pub fn to_u32(&self, big_endian: bool) -> (r: u32)
        ensures
            big_endian ==> r == spec_key_be(*self),
            !big_endian ==> r == spec_key_le(*self),
    {
        if big_endian {
            (self.alpha as u32) + (self.blue as u32) * 0x100 + (self.green as u32) * 0x1_0000
                + (self.red as u32) * 0x100_0000
        } else {
            (self.red as u32) + (self.green as u32) * 0x100 + (self.blue as u32) * 0x1_0000
                + (self.alpha as u32) * 0x100_0000
        }
    }

    /// Unpack a `u32` into channels, inverting `to_u32` for the same
    /// endianness choice.
    pub fn from_u32(value: u32, big_endian: bool) -> (r: RGBColor)
        ensures
            big_endian ==> r == spec_color_from_key_be(value as int),
            !big_endian ==> r == spec_color_from_key_le(value as int),
            big_endian ==> spec_key_be(r) == value,
            !big_endian ==> spec_key_le(r) == value,
    {
        let b0 = (value % 0x100) as u8;
        let b1 = ((value / 0x100) % 0x100) as u8;
        let b2 = ((value / 0x1_0000) % 0x100) as u8;
        let b3 = (value / 0x100_0000) as u8;
        proof {
            assert(value % 0x100 + ((value / 0x100) % 0x100) * 0x100 + ((value / 0x1_0000)
                % 0x100) * 0x1_0000 + (value / 0x100_0000) * 0x100_0000 == value) by (bit_vector);
            assert(value / 0x100_0000 < 0x100) by (bit_vector);
        }
        if big_endian {
            RGBColor { alpha: b0, blue: b1, green: b2, red: b3 }
        } else {
            RGBColor { red: b0, green: b1, blue: b2, alpha: b3 }
        }
    }

}

impl RGBColor {
    /// The Manhattan distance to `other` over the red, green and blue
    /// channels, exactly; alpha plays no part.
    pub fn get_manhattan_distance_rgb(&self, other: &RGBColor) -> (r: u32)
        ensures
            r == spec_manhattan_rgb(*self, *other),
    {
        let dr = channel_diff(self.red, other.red);
        let dg = channel_diff(self.green, other.green);
        let db = channel_diff(self.blue, other.blue);
        dr + dg + db
    }

    /// The squared Euclidean distance to `other` over the red, green and
    /// blue channels, exactly; alpha plays no part.
    pub fn get_euclidean_distance_sq_rgb(&self, other: &RGBColor) -> (r: u32)
        ensures
            r == spec_euclidean_sq_rgb(*self, *other),
    {
        let dr = channel_diff(self.red, other.red);
        let dg = channel_diff(self.green, other.green);
        let db = channel_diff(self.blue, other.blue);
        proof {
            assert(dr * dr <= 255 * 255 && dg * dg <= 255 * 255 && db * db <= 255 * 255)
                by (nonlinear_arith)
                requires
                    dr <= 255 && dg <= 255 && db <= 255,
            ;
        }
        dr * dr + dg * dg + db * db
    }
}

/// The absolute difference of two channel values.
fn channel_diff(a: u8, b: u8) -> (r: u32)
    ensures
        r == abs_diff(a as int, b as int),
        r <= 255,
{
    if a >= b {
        (a - b) as u32
    } else {
        (b - a) as u32
    }
}

} // verus!
