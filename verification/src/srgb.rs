//! The sRGB subsystem: linear sRGB, gamma-encoded sRGB, and the 8-bit
//! quantized form, with the conversions among them and to CIE XYZ at D65,
//! plus the luminance and brightness rescaling operations.
//!
//! The transfer function follows the sRGB standard: encoding maps a linear
//! channel `v` to `12.92*v` below the linear threshold and to
//! `1.055*v^(1/2.4) - 0.055` above it, clamped to 1.0 on overflow (there
//! is deliberately no clamp below zero: scene-referred linear values are
//! the caller's responsibility).  In fixed point the fractional powers are
//! computed through exact integer roots: `v^(1/2.4) = ((v^(1/3))^(1/4))^5`
//! and `v^2.4 = ((v^(1/5))^4)^3`, each root the exact rounded-down integer
//! root, each power rescaled with one correct rounding.

use vstd::math::abs;
use vstd::prelude::*;

use crate::cie1931::{Cie1931, D65};
use crate::fixed::{dot3_spec, fx3_in_range, iroot_spec, power, rdiv, rdiv_signed, FX_MAX_ABS, FX_ONE};

verus! {

/// An 8-bit quantized sRGB triple (gamma-encoded, one byte per channel).
#[derive(Debug, Clone, Copy, PartialEq, Eq)]
pub struct Srgb24(pub u8, pub u8, pub u8);

/// A gamma-encoded sRGB color, fixed point, conceptually in [0, 1].
#[derive(Debug, Clone, Copy)]
pub struct Srgb {
    /// The red channel.
    pub r: i64,
    /// The green channel.
    pub g: i64,
    /// The blue channel.
    pub b: i64,
}

/// A linear (physically proportional) sRGB color, fixed point.  Values may
/// exceed [0, 1]: scene-referred data is valid until explicitly mapped.
#[derive(Debug, Clone, Copy)]
pub struct LinearSrgb {
    /// The red channel.
    pub r: i64,
    /// The green channel.
    pub g: i64,
    /// The blue channel.
    pub b: i64,
}

/// Quantization of one gamma-encoded channel to a byte: round to nearest
/// on the 0..255 scale, saturating at both ends.
pub open spec fn quantize_spec(v: int) -> int {
    let q = rdiv(255 * v, FX_ONE as int);
    if q < 0 {
        0
    } else if q > 255 {
        255
    } else {
        q
    }
}

/// Dequantization of one byte to a gamma-encoded channel: `q / 255`,
/// correctly rounded.
pub open spec fn dequantize_spec(q: int) -> int {
    rdiv(q * (FX_ONE as int), 255)
}

/// Quantizing after dequantizing returns every byte unchanged: the 8-bit
/// round trip is exact.
pub proof fn lemma_quantize_dequantize(q: int)
    requires
        0 <= q <= 255,
    ensures
        quantize_spec(dequantize_spec(q)) == q,
{
    let d = rdiv(q * (FX_ONE as int), 255);
    crate::fixed::lemma_rdiv_error(q * (FX_ONE as int), 255);
    crate::fixed::lemma_rdiv_unique(255 * d, FX_ONE as int, q);
    crate::fixed::lemma_rdiv_nonneg(q * (FX_ONE as int), 255);
}

impl Srgb24 {
    /// Builds a quantized triple from its three bytes.
    pub fn new(r: u8, g: u8, b: u8) -> (c: Srgb24)
        ensures
            c.0 == r,
            c.1 == g,
            c.2 == b,
    {
        Srgb24(r, g, b)
    }

    /// Expands the triple to fixed-point gamma-encoded sRGB.
    pub fn to_srgb(&self) -> (c: Srgb)
        ensures
            c.r == dequantize_spec(self.0 as int),
            c.g == dequantize_spec(self.1 as int),
            c.b == dequantize_spec(self.2 as int),
            0 <= c.r <= FX_ONE,
            0 <= c.g <= FX_ONE,
            0 <= c.b <= FX_ONE,
    {
        proof {
            lemma_dequantize_in_range(self.0 as int);
            lemma_dequantize_in_range(self.1 as int);
            lemma_dequantize_in_range(self.2 as int);
        }
        Srgb {
            r: crate::fixed::mul_rdiv(self.0 as i64, FX_ONE, 255),
            g: crate::fixed::mul_rdiv(self.1 as i64, FX_ONE, 255),
            b: crate::fixed::mul_rdiv(self.2 as i64, FX_ONE, 255),
        }
    }
}

/// A dequantized byte lies in [0, 1].
proof fn lemma_dequantize_in_range(q: int)
    requires
        0 <= q <= 255,
    ensures
        0 <= dequantize_spec(q) <= FX_ONE,
{
    crate::fixed::lemma_rdiv_nonneg(q * (FX_ONE as int), 255);
    crate::fixed::lemma_mul_mono_left(q, 255, FX_ONE as int);
    crate::fixed::lemma_rdiv_mono(q * (FX_ONE as int), 255 * (FX_ONE as int), 255);
    vstd::arithmetic::mul::lemma_mul_is_commutative(255, FX_ONE as int);
    crate::fixed::lemma_rdiv_exact(FX_ONE as int, 255);
}

impl Srgb {
    /// Builds a gamma-encoded color from its three channels.
    pub fn new(r: i64, g: i64, b: i64) -> (c: Srgb)
        ensures
            c.r == r,
            c.g == g,
            c.b == b,
    {
        Srgb { r, g, b }
    }

    /// The red channel.
    pub fn r(&self) -> (v: i64)
        ensures
            v == self.r,
    {
        self.r
    }

    /// The green channel.
    pub fn g(&self) -> (v: i64)
        ensures
            v == self.g,
    {
        self.g
    }

    /// The blue channel.
    pub fn b(&self) -> (v: i64)
        ensures
            v == self.b,
    {
        self.b
    }

    /// Quantizes the color to one byte per channel, rounding to nearest on
    /// the 0..255 scale and saturating at both ends.
    pub fn to_srgb24(&self) -> (c: Srgb24)
        requires
            fx3_in_range(self.r as int, self.g as int, self.b as int),
        ensures
            c.0 == quantize_spec(self.r as int),
            c.1 == quantize_spec(self.g as int),
            c.2 == quantize_spec(self.b as int),
    {
        Srgb24(
            quantize_channel(self.r),
            quantize_channel(self.g),
            quantize_channel(self.b),
        )
    }
}

/// Quantizes one gamma-encoded channel.
fn quantize_channel(v: i64) -> (q: u8)
    requires
        -FX_MAX_ABS <= v <= FX_MAX_ABS,
    ensures
        q == quantize_spec(v as int),
{
    let scaled: i64 = crate::fixed::mul_rdiv(255, v, FX_ONE);
    if scaled < 0 {
        0
    } else if scaled > 255 {
        255
    } else {
        scaled as u8
    }
}

// The sRGB <-> XYZ matrices at the D65 white point, from the sRGB
// standard: the exact four-decimal matrix toward XYZ, and its published
// inverse, each coefficient an exact integer over 10^9.
pub const XYZ_TO_LINEAR_DEN: i64 = 1_000_000_000;

pub const XYZ_TO_LINEAR_00: i64 = 3_240_625_500;

pub const XYZ_TO_LINEAR_01: i64 = -1_537_208_000;

pub const XYZ_TO_LINEAR_02: i64 = -498_628_600;

pub const XYZ_TO_LINEAR_10: i64 = -968_930_710;

pub const XYZ_TO_LINEAR_11: i64 = 1_875_756_100;

pub const XYZ_TO_LINEAR_12: i64 = 41_517_524;

pub const XYZ_TO_LINEAR_20: i64 = 55_710_120;

pub const XYZ_TO_LINEAR_21: i64 = -204_021_050;

pub const XYZ_TO_LINEAR_22: i64 = 1_056_995_900;

pub const LINEAR_TO_XYZ_00: i64 = 412_400_000;

pub const LINEAR_TO_XYZ_01: i64 = 357_600_000;

pub const LINEAR_TO_XYZ_02: i64 = 180_500_000;

pub const LINEAR_TO_XYZ_10: i64 = 212_600_000;

pub const LINEAR_TO_XYZ_11: i64 = 715_200_000;

pub const LINEAR_TO_XYZ_12: i64 = 72_200_000;

pub const LINEAR_TO_XYZ_20: i64 = 19_300_000;

pub const LINEAR_TO_XYZ_21: i64 = 119_200_000;

pub const LINEAR_TO_XYZ_22: i64 = 950_500_000;

/// The linear-sRGB channels of an XYZ value at D65: one fixed 3x3 matrix,
/// rounded per channel.
pub open spec fn xyz_to_linear_spec(x: int, y: int, z: int) -> (int, int, int) {
    (
        dot3_spec(
            XYZ_TO_LINEAR_00 as int,
            XYZ_TO_LINEAR_01 as int,
            XYZ_TO_LINEAR_02 as int,
            x,
            y,
            z,
            XYZ_TO_LINEAR_DEN as int,
        ),
        dot3_spec(
            XYZ_TO_LINEAR_10 as int,
            XYZ_TO_LINEAR_11 as int,
            XYZ_TO_LINEAR_12 as int,
            x,
            y,
            z,
            XYZ_TO_LINEAR_DEN as int,
        ),
        dot3_spec(
            XYZ_TO_LINEAR_20 as int,
            XYZ_TO_LINEAR_21 as int,
            XYZ_TO_LINEAR_22 as int,
            x,
            y,
            z,
            XYZ_TO_LINEAR_DEN as int,
        ),
    )
}

/// The XYZ stimuli (at D65) of a linear-sRGB color: the exact published
/// matrix, rounded per channel.
pub open spec fn linear_to_xyz_spec(r: int, g: int, b: int) -> (int, int, int) {
    (
        dot3_spec(
            LINEAR_TO_XYZ_00 as int,
            LINEAR_TO_XYZ_01 as int,
            LINEAR_TO_XYZ_02 as int,
            r,
            g,
            b,
            XYZ_TO_LINEAR_DEN as int,
        ),
        dot3_spec(
            LINEAR_TO_XYZ_10 as int,
            LINEAR_TO_XYZ_11 as int,
            LINEAR_TO_XYZ_12 as int,
            r,
            g,
            b,
            XYZ_TO_LINEAR_DEN as int,
        ),
        dot3_spec(
            LINEAR_TO_XYZ_20 as int,
            LINEAR_TO_XYZ_21 as int,
            LINEAR_TO_XYZ_22 as int,
            r,
            g,
            b,
            XYZ_TO_LINEAR_DEN as int,
        ),
    )
}

impl Cie1931<D65> {
    /// Converts this XYZ value to linear sRGB.
    pub fn to_linear_srgb(&self) -> (c: LinearSrgb)
        requires
            fx3_in_range(self.x as int, self.y as int, self.z as int),
        ensures
            (c.r as int, c.g as int, c.b as int) == xyz_to_linear_spec(
                self.x as int,
                self.y as int,
                self.z as int,
            ),
    {
        LinearSrgb {
            r: crate::fixed::dot3(
                XYZ_TO_LINEAR_00,
                XYZ_TO_LINEAR_01,
                XYZ_TO_LINEAR_02,
                self.x,
                self.y,
                self.z,
                XYZ_TO_LINEAR_DEN,
            ),
            g: crate::fixed::dot3(
                XYZ_TO_LINEAR_10,
                XYZ_TO_LINEAR_11,
                XYZ_TO_LINEAR_12,
                self.x,
                self.y,
                self.z,
                XYZ_TO_LINEAR_DEN,
            ),
            b: crate::fixed::dot3(
                XYZ_TO_LINEAR_20,
                XYZ_TO_LINEAR_21,
                XYZ_TO_LINEAR_22,
                self.x,
                self.y,
                self.z,
                XYZ_TO_LINEAR_DEN,
            ),
        }
    }
}

// The NTSC-style brightness weights (29.9%, 58.7%, 11.4%), exact integers
// over 10^3, and the sRGB/D65 luminance row (the middle row of the
// linear-sRGB to XYZ matrix at full precision), exact integers over 10^7.
// Brightness and luminance are two distinct scalar projections.
pub const BRIGHTNESS_R: i64 = 299;

pub const BRIGHTNESS_G: i64 = 587;

pub const BRIGHTNESS_B: i64 = 114;

pub const BRIGHTNESS_DEN: i64 = 1_000;

pub const LUMINANCE_R: i64 = 2_126_729;

pub const LUMINANCE_G: i64 = 7_151_522;

pub const LUMINANCE_B: i64 = 721_750;

/// The luminance of a linear-sRGB color: the Y row of the sRGB-to-XYZ
/// matrix, `0.2126729*r + 0.7151522*g + 0.0721750*b`, rounded once.
pub open spec fn luminance_spec(r: int, g: int, b: int) -> int {
    dot3_spec(
        LUMINANCE_R as int,
        LUMINANCE_G as int,
        LUMINANCE_B as int,
        r,
        g,
        b,
        FX_ONE as int,
    )
}

/// The legacy NTSC-weighted brightness of a linear-sRGB color:
/// `0.299*r + 0.587*g + 0.114*b`, rounded once.
pub open spec fn brightness_spec(r: int, g: int, b: int) -> int {
    dot3_spec(
        BRIGHTNESS_R as int,
        BRIGHTNESS_G as int,
        BRIGHTNESS_B as int,
        r,
        g,
        b,
        BRIGHTNESS_DEN as int,
    )
}

/// A negative target is lifted to zero before a luminance rescale.
pub open spec fn clamp_nonneg(v: int) -> int {
    if v < 0 {
        0
    } else {
        v
    }
}

/// One channel of a luminance rescale: scaled by `target/current`
/// (whatever the sign of `current`) and saturated to white at 1.0.
pub open spec fn rescale_capped_spec(ch: int, target: int, current: int) -> int {
    let v = rdiv_signed(ch * target, current);
    if v > FX_ONE as int {
        FX_ONE as int
    } else {
        v
    }
}

/// The largest of three channels.
pub open spec fn max3(a: int, b: int, c: int) -> int {
    if a >= b && a >= c {
        a
    } else if b >= c {
        b
    } else {
        c
    }
}

impl LinearSrgb {
    /// Builds a linear color from its three channels.
    pub fn new(r: i64, g: i64, b: i64) -> (c: LinearSrgb)
        ensures
            c.r == r,
            c.g == g,
            c.b == b,
    {
        LinearSrgb { r, g, b }
    }

    /// The red channel.
    pub fn r(&self) -> (v: i64)
        ensures
            v == self.r,
    {
        self.r
    }

    /// The green channel.
    pub fn g(&self) -> (v: i64)
        ensures
            v == self.g,
    {
        self.g
    }

    /// The blue channel.
    pub fn b(&self) -> (v: i64)
        ensures
            v == self.b,
    {
        self.b
    }

    /// Converts this linear color to XYZ at D65.
    pub fn to_cie1931(&self) -> (c: Cie1931<D65>)
        requires
            fx3_in_range(self.r as int, self.g as int, self.b as int),
        ensures
            (c.x as int, c.y as int, c.z as int) == linear_to_xyz_spec(
                self.r as int,
                self.g as int,
                self.b as int,
            ),
    {
        let x: i64 = crate::fixed::dot3(
            LINEAR_TO_XYZ_00,
            LINEAR_TO_XYZ_01,
            LINEAR_TO_XYZ_02,
            self.r,
            self.g,
            self.b,
            XYZ_TO_LINEAR_DEN,
        );
        let y: i64 = crate::fixed::dot3(
            LINEAR_TO_XYZ_10,
            LINEAR_TO_XYZ_11,
            LINEAR_TO_XYZ_12,
            self.r,
            self.g,
            self.b,
            XYZ_TO_LINEAR_DEN,
        );
        let z: i64 = crate::fixed::dot3(
            LINEAR_TO_XYZ_20,
            LINEAR_TO_XYZ_21,
            LINEAR_TO_XYZ_22,
            self.r,
            self.g,
            self.b,
            XYZ_TO_LINEAR_DEN,
        );
        Cie1931::<D65>::new(x, y, z)
    }

    /// The luminance of the color (the Y row of the sRGB-to-XYZ matrix).
    pub fn get_luminance(&self) -> (v: i64)
        requires
            fx3_in_range(self.r as int, self.g as int, self.b as int),
        ensures
            v == luminance_spec(self.r as int, self.g as int, self.b as int),
    {
        crate::fixed::dot3(LUMINANCE_R, LUMINANCE_G, LUMINANCE_B, self.r, self.g, self.b, FX_ONE)
    }

    /// Rescales all channels by `luminance / current` (the target lifted
    /// to zero when negative) so the luminance moves to the target,
    /// saturating each channel to white at 1.0, whatever the sign of the
    /// current luminance.  A color whose luminance is exactly zero cannot
    /// be rescaled and is left unchanged, by policy, rather than dividing
    /// by zero.
    pub fn set_luminance(&mut self, luminance: i64)
        requires
            fx3_in_range(old(self).r as int, old(self).g as int, old(self).b as int),
            luminance_spec(old(self).r as int, old(self).g as int, old(self).b as int) != 0 ==> abs(
                (old(self).r as int) * clamp_nonneg(luminance as int),
            ) <= abs(luminance_spec(old(self).r as int, old(self).g as int, old(self).b as int)) * (
            i64::MAX as int),
            luminance_spec(old(self).r as int, old(self).g as int, old(self).b as int) != 0 ==> abs(
                (old(self).g as int) * clamp_nonneg(luminance as int),
            ) <= abs(luminance_spec(old(self).r as int, old(self).g as int, old(self).b as int)) * (
            i64::MAX as int),
            luminance_spec(old(self).r as int, old(self).g as int, old(self).b as int) != 0 ==> abs(
                (old(self).b as int) * clamp_nonneg(luminance as int),
            ) <= abs(luminance_spec(old(self).r as int, old(self).g as int, old(self).b as int)) * (
            i64::MAX as int),
        ensures
            ({
                let cur = luminance_spec(old(self).r as int, old(self).g as int, old(self).b as int);
                let target = clamp_nonneg(luminance as int);
                &&& cur == 0 ==> *final(self) == *old(self)
                &&& cur != 0 ==> final(self).r == rescale_capped_spec(old(self).r as int, target, cur)
                &&& cur != 0 ==> final(self).g == rescale_capped_spec(old(self).g as int, target, cur)
                &&& cur != 0 ==> final(self).b == rescale_capped_spec(old(self).b as int, target, cur)
            }),
    {
        let target: i64 = if luminance < 0 {
            0
        } else {
            luminance
        };
        let current: i64 = self.get_luminance();
        if current == 0 {
            return ;
        }
        self.r = rescale_capped(self.r, target, current);
        self.g = rescale_capped(self.g, target, current);
        self.b = rescale_capped(self.b, target, current);
    }

    /// The NTSC-weighted brightness of the color.
    pub fn get_brightness(&self) -> (v: i64)
        requires
            fx3_in_range(self.r as int, self.g as int, self.b as int),
        ensures
            v == brightness_spec(self.r as int, self.g as int, self.b as int),
    {
        crate::fixed::dot3(
            BRIGHTNESS_R,
            BRIGHTNESS_G,
            BRIGHTNESS_B,
            self.r,
            self.g,
            self.b,
            BRIGHTNESS_DEN,
        )
    }

    /// Rescales all channels by `brightness / current` so the brightness
    /// moves to the target, whatever the sign of the current brightness.
    /// The channels are not clamped: the result can go beyond 1.0.  A
    /// color whose brightness is exactly zero cannot be rescaled and is
    /// left unchanged, by policy, rather than dividing by zero.
    pub fn set_brightness(&mut self, brightness: i64)
        requires
            fx3_in_range(old(self).r as int, old(self).g as int, old(self).b as int),
            brightness_spec(old(self).r as int, old(self).g as int, old(self).b as int) != 0
                ==> abs((old(self).r as int) * (brightness as int)) <= abs(brightness_spec(
                old(self).r as int,
                old(self).g as int,
                old(self).b as int,
            )) * (i64::MAX as int),
            brightness_spec(old(self).r as int, old(self).g as int, old(self).b as int) != 0
                ==> abs((old(self).g as int) * (brightness as int)) <= abs(brightness_spec(
                old(self).r as int,
                old(self).g as int,
                old(self).b as int,
            )) * (i64::MAX as int),
            brightness_spec(old(self).r as int, old(self).g as int, old(self).b as int) != 0
                ==> abs((old(self).b as int) * (brightness as int)) <= abs(brightness_spec(
                old(self).r as int,
                old(self).g as int,
                old(self).b as int,
            )) * (i64::MAX as int),
        ensures
            ({
                let cur = brightness_spec(old(self).r as int, old(self).g as int, old(self).b as int);
                &&& cur == 0 ==> *final(self) == *old(self)
                &&& cur != 0 ==> final(self).r == rdiv_signed(
                    (old(self).r as int) * (brightness as int),
                    cur,
                )
                &&& cur != 0 ==> final(self).g == rdiv_signed(
                    (old(self).g as int) * (brightness as int),
                    cur,
                )
                &&& cur != 0 ==> final(self).b == rdiv_signed(
                    (old(self).b as int) * (brightness as int),
                    cur,
                )
            }),
    {
        let current: i64 = self.get_brightness();
        if current == 0 {
            return ;
        }
        self.r = crate::fixed::mul_rdiv_signed(self.r, brightness, current);
        self.g = crate::fixed::mul_rdiv_signed(self.g, brightness, current);
        self.b = crate::fixed::mul_rdiv_signed(self.b, brightness, current);
    }

    /// Rescales the color by `1.0 / max` where `max` is its largest
    /// channel: the gamut mapping that brings an overflowing linear color
    /// down to the displayable range without shifting its hue.  When the
    /// largest channel is positive it becomes exactly 1.0.  A color whose
    /// largest channel is exactly zero cannot be rescaled and is left
    /// unchanged, by policy, rather than dividing by zero.
    pub fn set_max_brightness(&mut self)
        requires
            fx3_in_range(old(self).r as int, old(self).g as int, old(self).b as int),
            max3(old(self).r as int, old(self).g as int, old(self).b as int) != 0 ==> abs(
                (old(self).r as int) * (FX_ONE as int),
            ) <= abs(max3(old(self).r as int, old(self).g as int, old(self).b as int)) * (
            i64::MAX as int),
            max3(old(self).r as int, old(self).g as int, old(self).b as int) != 0 ==> abs(
                (old(self).g as int) * (FX_ONE as int),
            ) <= abs(max3(old(self).r as int, old(self).g as int, old(self).b as int)) * (
            i64::MAX as int),
            max3(old(self).r as int, old(self).g as int, old(self).b as int) != 0 ==> abs(
                (old(self).b as int) * (FX_ONE as int),
            ) <= abs(max3(old(self).r as int, old(self).g as int, old(self).b as int)) * (
            i64::MAX as int),
        ensures
            ({
                let mx = max3(old(self).r as int, old(self).g as int, old(self).b as int);
                &&& mx == 0 ==> *final(self) == *old(self)
                &&& mx != 0 ==> final(self).r == rdiv_signed(
                    (old(self).r as int) * (FX_ONE as int),
                    mx,
                )
                &&& mx != 0 ==> final(self).g == rdiv_signed(
                    (old(self).g as int) * (FX_ONE as int),
                    mx,
                )
                &&& mx != 0 ==> final(self).b == rdiv_signed(
                    (old(self).b as int) * (FX_ONE as int),
                    mx,
                )
                &&& mx >= 1 ==> max3(
                    final(self).r as int,
                    final(self).g as int,
                    final(self).b as int,
                ) == FX_ONE as int
            }),
    {
        let mut mx: i64 = self.r;
        if self.g > mx {
            mx = self.g;
        }
        if self.b > mx {
            mx = self.b;
        }
        if mx == 0 {
            return ;
        }
        proof {
            if mx >= 1 {
                lemma_rescale_to_max(self.r as int, mx as int);
                lemma_rescale_to_max(self.g as int, mx as int);
                lemma_rescale_to_max(self.b as int, mx as int);
            }
        }
        self.r = crate::fixed::mul_rdiv_signed(self.r, FX_ONE, mx);
        self.g = crate::fixed::mul_rdiv_signed(self.g, FX_ONE, mx);
        self.b = crate::fixed::mul_rdiv_signed(self.b, FX_ONE, mx);
    }
}

/// Scaling a channel by `FX_ONE / mx` sends a channel equal to `mx` to
/// exactly 1.0 and keeps every smaller channel at or below it.
proof fn lemma_rescale_to_max(ch: int, mx: int)
    requires
        1 <= mx <= FX_MAX_ABS as int,
        -(FX_MAX_ABS as int) <= ch <= mx,
    ensures
        rdiv(ch * (FX_ONE as int), mx) <= FX_ONE as int,
        ch == mx ==> rdiv(ch * (FX_ONE as int), mx) == FX_ONE as int,
{
    crate::fixed::lemma_mul_mono_left(ch, mx, FX_ONE as int);
    vstd::arithmetic::mul::lemma_mul_is_commutative(mx, FX_ONE as int);
    crate::fixed::lemma_rdiv_exact(FX_ONE as int, mx);
    crate::fixed::lemma_rdiv_mono(ch * (FX_ONE as int), mx * (FX_ONE as int), mx);
}

/// The gamma-encoded value of one linear channel: `12.92*v` at or below
/// the linear threshold 0.0031308, else `1.055*v^(1/2.4) - 0.055`,
/// clamped to 1.0 on overflow.  The fractional power is computed as
/// `((v^(1/3))^(1/4))^5` over exact integer roots; above 1.0 the encoded
/// value would exceed 1.0 exactly, so it is clamped without computing.
pub open spec fn gamma_encode_spec(v: int) -> int {
    if v <= 31308 {
        rdiv(1292 * v, 100)
    } else if v >= FX_ONE as int {
        FX_ONE as int
    } else {
        let c = iroot_spec(v * 100_000_000_000_000, 3);
        let q = iroot_spec(c * 1_000_000_000_000_000_000_000, 4);
        let p = rdiv(power(q, 5), 10_000_000_000_000_000_000_000_000_000);
        let g = rdiv(1055 * p, 1000) - 550_000;
        if g >= FX_ONE as int {
            FX_ONE as int
        } else {
            g
        }
    }
}

/// The linear value of one gamma-encoded channel: `v/12.92` at or below
/// the encoded threshold 0.04045, else `((v+0.055)/1.055)^2.4`, clamped
/// to 1.0 on overflow.  The fractional power is computed as
/// `((t^(1/5))^4)^3` over exact integer roots.
pub open spec fn gamma_decode_spec(v: int) -> int {
    if v <= 404_500 {
        rdiv(100 * v, 1292)
    } else if v >= FX_ONE as int {
        FX_ONE as int
    } else {
        let t = rdiv((v + 550_000) * (FX_ONE as int), 10_550_000);
        let f = iroot_spec(t * 10_000_000_000_000_000_000_000_000_000, 5);
        let g = rdiv(power(f, 4), 1_000_000_000_000_000_000_000);
        let w = rdiv(g * g * g, 100_000_000_000_000);
        if w >= FX_ONE as int {
            FX_ONE as int
        } else {
            w
        }
    }
}

/// Gamma-encodes one linear channel.
fn gamma_encode(v: i64) -> (r: i64)
    requires
        -FX_MAX_ABS <= v <= FX_MAX_ABS,
    ensures
        r as int == gamma_encode_spec(v as int),
        r <= FX_ONE,
{
    if v <= 31308 {
        let r: i64 = crate::fixed::mul_rdiv(1292, v, 100);
        proof {
            crate::fixed::lemma_rdiv_mono(1292 * (v as int), 1292 * 31308int, 100);
        }
        r
    } else if v >= FX_ONE {
        FX_ONE
    } else {
        proof {
            assert(power(10_000_000, 3) == 1_000_000_000_000_000_000_000) by {
                reveal_with_fuel(power, 4);
            }
        }
        let n1: u128 = (v as u128) * 100_000_000_000_000;
        let c: u64 = crate::fixed::iroot(n1, 3);
        proof {
            assert(power(1, 3) == 1) by {
                reveal_with_fuel(power, 4);
            }
            if c == 0 {
                assert(false);
            }
            assert(power(10_000_000, 4) == 10_000_000_000_000_000_000_000_000_000) by {
                reveal_with_fuel(power, 5);
            }
        }
        let n2: u128 = (c as u128) * 1_000_000_000_000_000_000_000;
        let q: u64 = crate::fixed::iroot(n2, 4);
        proof {
            assert(power(1, 4) == 1) by {
                reveal_with_fuel(power, 5);
            }
            if q == 0 {
                assert(false);
            }
            crate::fixed::lemma_power_mono_base(q as int, 10_000_000, 5);
            assert(power(10_000_000, 5) == 100_000_000_000_000_000_000_000_000_000_000_000) by {
                reveal_with_fuel(power, 6);
            }
            crate::fixed::lemma_power_nonneg(q as int, 5);
        }
        let q5: u128 = crate::fixed::power_u128(q, 5);
        let p128: i128 = crate::fixed::rdiv_i128(
            q5 as i128,
            10_000_000_000_000_000_000_000_000_000,
        );
        proof {
            crate::fixed::lemma_rdiv_bounded(
                q5 as int,
                10_000_000_000_000_000_000_000_000_000,
                100_000_000_000_000_000_000_000_000_000_000_000,
                10_000_000,
            );
            crate::fixed::lemma_rdiv_nonneg(q5 as int, 10_000_000_000_000_000_000_000_000_000);
        }
        let p: i64 = p128 as i64;
        let g: i64 = crate::fixed::mul_rdiv(1055, p, 1000) - 550_000;
        proof {
            crate::fixed::lemma_rdiv_nonneg(1055 * (p as int), 1000);
        }
        if g >= FX_ONE {
            FX_ONE
        } else {
            g
        }
    }
}

/// Gamma-decodes one encoded channel back to linear.
fn gamma_decode(v: i64) -> (r: i64)
    requires
        -FX_MAX_ABS <= v <= FX_MAX_ABS,
    ensures
        r as int == gamma_decode_spec(v as int),
        r <= FX_ONE,
{
    if v <= 404_500 {
        let r: i64 = crate::fixed::mul_rdiv(100, v, 1292);
        proof {
            crate::fixed::lemma_rdiv_mono(100 * (v as int), 100 * 404_500int, 1292);
        }
        r
    } else if v >= FX_ONE {
        FX_ONE
    } else {
        let t: i64 = crate::fixed::mul_rdiv(v + 550_000, FX_ONE, 10_550_000);
        proof {
            crate::fixed::lemma_rdiv_mono(
                954_501 * (FX_ONE as int),
                ((v + 550_000) as int) * (FX_ONE as int),
                10_550_000,
            );
            crate::fixed::lemma_mul_mono_left(954_501, (v + 550_000) as int, FX_ONE as int);
            crate::fixed::lemma_mul_mono_left((v + 550_000) as int, 10_550_000, FX_ONE as int);
            crate::fixed::lemma_rdiv_mono(
                ((v + 550_000) as int) * (FX_ONE as int),
                10_550_000 * (FX_ONE as int),
                10_550_000,
            );
            vstd::arithmetic::mul::lemma_mul_is_commutative(10_550_000, FX_ONE as int);
            crate::fixed::lemma_rdiv_exact(FX_ONE as int, 10_550_000);
            assert(power(10_000_000, 5) == 100_000_000_000_000_000_000_000_000_000_000_000) by {
                reveal_with_fuel(power, 6);
            }
        }
        let n1: u128 = (t as u128) * 10_000_000_000_000_000_000_000_000_000;
        let f: u64 = crate::fixed::iroot(n1, 5);
        proof {
            assert(power(1, 5) == 1) by {
                reveal_with_fuel(power, 6);
            }
            if f == 0 {
                assert(false);
            }
            crate::fixed::lemma_power_mono_base(f as int, 10_000_000, 4);
            assert(power(10_000_000, 4) == 10_000_000_000_000_000_000_000_000_000) by {
                reveal_with_fuel(power, 5);
            }
            crate::fixed::lemma_power_nonneg(f as int, 4);
        }
        let f4: u128 = crate::fixed::power_u128(f, 4);
        let g128: i128 = crate::fixed::rdiv_i128(f4 as i128, 1_000_000_000_000_000_000_000);
        proof {
            crate::fixed::lemma_rdiv_bounded(
                f4 as int,
                1_000_000_000_000_000_000_000,
                10_000_000_000_000_000_000_000_000_000,
                10_000_000,
            );
            crate::fixed::lemma_rdiv_nonneg(f4 as int, 1_000_000_000_000_000_000_000);
            assert((g128 as int) * (g128 as int) <= 100_000_000_000_000
                && 0 <= (g128 as int) * (g128 as int)) by (nonlinear_arith)
                requires
                    0 <= g128 as int <= 10_000_000,
            ;
        }
        let g2: i128 = g128 * g128;
        proof {
            assert((g2 as int) * (g128 as int) <= 1_000_000_000_000_000_000_000 && 0 <= (
            g2 as int) * (g128 as int)) by (nonlinear_arith)
                requires
                    0 <= g128 as int <= 10_000_000,
                    0 <= g2 as int <= 100_000_000_000_000,
                    g2 as int == (g128 as int) * (g128 as int),
            ;
        }
        let g3: i128 = g2 * g128;
        let w128: i128 = crate::fixed::rdiv_i128(g3, 100_000_000_000_000);
        proof {
            crate::fixed::lemma_rdiv_bounded(
                g3 as int,
                100_000_000_000_000,
                1_000_000_000_000_000_000_000,
                10_000_000,
            );
            crate::fixed::lemma_rdiv_nonneg(g3 as int, 100_000_000_000_000);
        }
        let w: i64 = w128 as i64;
        if w >= FX_ONE {
            FX_ONE
        } else {
            w
        }
    }
}

impl LinearSrgb {
    /// Gamma-encodes the color, applying the sRGB transfer function to
    /// each channel (and clamping each to 1.0 on overflow).
    pub fn to_srgb(&self) -> (c: Srgb)
        requires
            fx3_in_range(self.r as int, self.g as int, self.b as int),
        ensures
            c.r as int == gamma_encode_spec(self.r as int),
            c.g as int == gamma_encode_spec(self.g as int),
            c.b as int == gamma_encode_spec(self.b as int),
    {
        Srgb { r: gamma_encode(self.r), g: gamma_encode(self.g), b: gamma_encode(self.b) }
    }
}

impl Srgb {
    /// Decodes the color to linear sRGB, inverting the transfer function
    /// on each channel (and clamping each to 1.0 on overflow).
    pub fn to_linear(&self) -> (c: LinearSrgb)
        requires
            fx3_in_range(self.r as int, self.g as int, self.b as int),
        ensures
            c.r as int == gamma_decode_spec(self.r as int),
            c.g as int == gamma_decode_spec(self.g as int),
            c.b as int == gamma_decode_spec(self.b as int),
    {
        LinearSrgb { r: gamma_decode(self.r), g: gamma_decode(self.g), b: gamma_decode(self.b) }
    }
}

/// One channel of a capped rescale.
fn rescale_capped(ch: i64, target: i64, current: i64) -> (v: i64)
    requires
        current != 0,
        abs((ch as int) * (target as int)) <= abs(current as int) * (i64::MAX as int),
    ensures
        v == rescale_capped_spec(ch as int, target as int, current as int),
{
    let scaled: i64 = crate::fixed::mul_rdiv_signed(ch, target, current);
    if scaled > FX_ONE {
        FX_ONE
    } else {
        scaled
    }
}


/// A brightness rescale lands on its target up to the two roundings
/// involved: for a color of positive brightness `cur` rescaled toward a
/// nonnegative `target`, the brightness read back afterwards differs from
/// the target by at most `1 + target/(2*cur)`, stated here in exact
/// integer form.
pub proof fn lemma_set_brightness_accuracy(r: int, g: int, b: int, target: int)
    requires
        1 <= brightness_spec(r, g, b),
        0 <= target,
    ensures
        ({
            let cur = brightness_spec(r, g, b);
            let bnew = brightness_spec(
                rdiv_signed(r * target, cur),
                rdiv_signed(g * target, cur),
                rdiv_signed(b * target, cur),
            );
            -(2000 * cur + 1000 * target) <= 2 * ((1000 * cur) * (bnew - target)) <= 2000 * cur
                + 1000 * target
        }),
{
    assert((BRIGHTNESS_R as int) == 299 && (BRIGHTNESS_G as int) == 587 && (BRIGHTNESS_B as int)
        == 114 && (BRIGHTNESS_DEN as int) == 1000);
    let cur = brightness_spec(r, g, b);
    let r2 = rdiv_signed(r * target, cur);
    let g2 = rdiv_signed(g * target, cur);
    let b2 = rdiv_signed(b * target, cur);
    let bnew = brightness_spec(r2, g2, b2);
    crate::fixed::lemma_rdiv_error(299 * r + 587 * g + 114 * b, 1000);
    crate::fixed::lemma_rdiv_error(r * target, cur);
    crate::fixed::lemma_rdiv_error(g * target, cur);
    crate::fixed::lemma_rdiv_error(b * target, cur);
    crate::fixed::lemma_rdiv_error(299 * r2 + 587 * g2 + 114 * b2, 1000);
    let e0 = 299 * r + 587 * g + 114 * b - 1000 * cur;
    let d1 = r * target - r2 * cur;
    let d2 = g * target - g2 * cur;
    let d3 = b * target - b2 * cur;
    let e4 = 299 * r2 + 587 * g2 + 114 * b2 - 1000 * bnew;
    assert((1000 * cur) * (bnew - target) == target * e0 - (299 * d1 + 587 * d2 + 114 * d3) - cur
        * e4) by (nonlinear_arith)
        requires
            e0 == 299 * r + 587 * g + 114 * b - 1000 * cur,
            d1 == r * target - r2 * cur,
            d2 == g * target - g2 * cur,
            d3 == b * target - b2 * cur,
            e4 == 299 * r2 + 587 * g2 + 114 * b2 - 1000 * bnew,
    ;
    assert(-(1000 * target) <= 2 * (target * e0) <= 1000 * target) by (nonlinear_arith)
        requires
            0 <= target,
            -1000 <= 2 * e0 <= 1000,
    ;
    assert(-(1000 * cur) <= 2 * (cur * e4) <= 1000 * cur) by (nonlinear_arith)
        requires
            1 <= cur,
            -1000 <= 2 * e4 <= 1000,
    ;
}

/// Any linear color whose brightness is exactly 0.5, rescaled toward a
/// brightness of 0.8, reads back a brightness within one fixed-point unit
/// of 0.8 — far inside the 10^-6 window, for every such color.
pub proof fn lemma_brightness_rescale_half_to_eight_tenths(r: int, g: int, b: int)
    requires
        brightness_spec(r, g, b) == 5_000_000,
    ensures
        ({
            let bnew = brightness_spec(
                rdiv_signed(r * 8_000_000, 5_000_000),
                rdiv_signed(g * 8_000_000, 5_000_000),
                rdiv_signed(b * 8_000_000, 5_000_000),
            );
            abs(bnew - 8_000_000) <= 1
        }),
{
    lemma_set_brightness_accuracy(r, g, b, 8_000_000);
}

/// The heart of the transfer-function round trip: on the power branch,
/// decoding an encoded channel recovers it within 10^-5.  The proof tracks
/// the exact integer roots through both directions: the encoder's twelfth
/// root `q` satisfies `q^12 <= x * 10^77 < ((q+1)^4)^3 + slack`, the
/// decoder's fifth root lands within one of `q`, and every rounding step
/// moves the twelfth-power scale by less than 30 units of the channel.
proof fn lemma_gamma_round_trip_power(x: int)
    requires
        31_309 <= x <= 9_999_999,
    ensures
        abs(gamma_decode_spec(gamma_encode_spec(x)) - x) <= 100,
{
    let n1 = x * 100_000_000_000_000;
    crate::fixed::lemma_iroot_spec_props(n1, 3);
    let c = iroot_spec(n1, 3);
    crate::fixed::lemma_power3_val(c);
    crate::fixed::lemma_power3_val(c + 1);
    assert(c <= 9_999_999) by (nonlinear_arith)
        requires
            (c * c) * c <= n1,
            n1 <= 999_999_900_000_000_000_000,
            0 <= c,
    ;
    let n2 = c * 1_000_000_000_000_000_000_000;
    crate::fixed::lemma_iroot_spec_props(n2, 4);
    let q = iroot_spec(n2, 4);
    crate::fixed::lemma_power4_val(q);
    crate::fixed::lemma_power4_val(q + 1);
    let q4 = (q * q) * (q * q);
    let q14 = ((q + 1) * (q + 1)) * ((q + 1) * (q + 1));
    assert(q <= 9_999_999) by (nonlinear_arith)
        requires
            q4 <= n2,
            q4 == (q * q) * (q * q),
            n2 <= 9_999_999_000_000_000_000_000_000_000,
            0 <= q,
    ;
    // the ceiling on the cube of c loses at most 3*(c+1)^2 < 3*10^14
    assert((c * c) * c >= n1 - 300_000_000_000_000) by (nonlinear_arith)
        requires
            n1 < ((c + 1) * (c + 1)) * (c + 1),
            0 <= c <= 9_999_999,
    ;
    // cube the two root inequalities up to the twelfth-power scale
    assert((q14 * q14) * q14 > ((c * c) * c)
        * 1_000_000_000_000_000_000_000_000_000_000_000_000_000_000_000_000_000_000_000_000_000)
        by (nonlinear_arith)
        requires
            0 <= c * 1_000_000_000_000_000_000_000 < q14,
    ;
    assert((q4 * q4) * q4 <= ((c * c) * c)
        * 1_000_000_000_000_000_000_000_000_000_000_000_000_000_000_000_000_000_000_000_000_000)
        by (nonlinear_arith)
        requires
            0 <= q4 <= c * 1_000_000_000_000_000_000_000,
    ;
    assert(((c * c) * c)
        * 1_000_000_000_000_000_000_000_000_000_000_000_000_000_000_000_000_000_000_000_000_000 >= x
        * 100_000_000_000_000_000_000_000_000_000_000_000_000_000_000_000_000_000_000_000_000_000_000_000_000_000
        - 3
        * 100_000_000_000_000_000_000_000_000_000_000_000_000_000_000_000_000_000_000_000_000_000_000_000_000_000);
    assert(((c * c) * c)
        * 1_000_000_000_000_000_000_000_000_000_000_000_000_000_000_000_000_000_000_000_000_000 <= x
        * 100_000_000_000_000_000_000_000_000_000_000_000_000_000_000_000_000_000_000_000_000_000_000_000_000_000);
    // q is at least six million
    if q <= 5_999_999 {
        assert(q14 <= 1_296_000_000_000_000_000_000_000_000) by (nonlinear_arith)
            requires
                q14 == ((q + 1) * (q + 1)) * ((q + 1) * (q + 1)),
                0 <= q + 1 <= 6_000_000,
        ;
        assert((q14 * q14) * q14
            <= 2_176_782_336_000_000_000_000_000_000_000_000_000_000_000_000_000_000_000_000_000_000_000_000_000_000_000_000)
            by (nonlinear_arith)
            requires
                0 <= q14 <= 1_296_000_000_000_000_000_000_000_000,
        ;
        assert(false);
    }
    // the rounded fifth power and the encoded value
    let q5 = power(q, 5);
    crate::fixed::lemma_power5_val(q);
    assert(0 <= q5 <= 99_999_950_000_009_999_999_000_000_049_999_999) by (nonlinear_arith)
        requires
            q5 == ((q * q) * (q * q)) * q,
            0 <= q <= 9_999_999,
    ;
    let p = rdiv(q5, 10_000_000_000_000_000_000_000_000_000);
    crate::fixed::lemma_rdiv_error(q5, 10_000_000_000_000_000_000_000_000_000);
    crate::fixed::lemma_rdiv_nonneg(q5, 10_000_000_000_000_000_000_000_000_000);
    assert(p <= 9_999_995);
    let m = rdiv(1055 * p, 1000);
    crate::fixed::lemma_rdiv_error(1055 * p, 1000);
    crate::fixed::lemma_rdiv_nonneg(1055 * p, 1000);
    let g = m - 550_000;
    assert(g <= 9_999_995);
    assert(gamma_encode_spec(x) == g);
    // the encoded value is above the decoder's linear threshold
    if g <= 404_500 {
        assert(p <= 904_739);
        assert(q <= 6_184_501) by (nonlinear_arith)
            requires
                q5 == ((q * q) * (q * q)) * q,
                q5 <= 9_047_395_000_000_000_000_000_000_000_000_000,
                0 <= q,
        ;
        assert(q14 <= 1_462_914_475_326_577_424_663_904_016) by (nonlinear_arith)
            requires
                q14 == ((q + 1) * (q + 1)) * ((q + 1) * (q + 1)),
                0 <= q + 1 <= 6_184_502,
        ;
        let ce = (c + 1) * 1_000_000_000_000_000_000_000;
        assert(n1 * 1_000_000_000_000_000_000_000_000_000_000_000_000_000_000_000_000_000_000_000_000_000
            < (ce * ce) * ce) by (nonlinear_arith)
            requires
                n1 < ((c + 1) * (c + 1)) * (c + 1),
                ce == (c + 1) * 1_000_000_000_000_000_000_000,
                0 <= c,
        ;
        assert(ce <= q14 + 1_000_000_000_000_000_000_000);
        assert((ce * ce) * ce <= ((q14 + 1_000_000_000_000_000_000_000) * (q14
            + 1_000_000_000_000_000_000_000)) * (q14 + 1_000_000_000_000_000_000_000)) by (
        nonlinear_arith)
            requires
                0 <= ce <= q14 + 1_000_000_000_000_000_000_000,
        ;
        assert(((q14 + 1_000_000_000_000_000_000_000) * (q14 + 1_000_000_000_000_000_000_000)) * (
        q14 + 1_000_000_000_000_000_000_000)
            <= 3_130_817_136_384_070_918_808_945_636_213_469_850_017_000_266_161_431_441_884_835_764_946_154_424_246_276_096)
            by (nonlinear_arith)
            requires
                0 <= q14 <= 1_462_914_475_326_577_424_663_904_016,
        ;
        assert(false);
    }
    // ===== the decode side =====
    let t = rdiv((g + 550_000) * (FX_ONE as int), 10_550_000);
    crate::fixed::lemma_rdiv_error((g + 550_000) * (FX_ONE as int), 10_550_000);
    assert(t == p) by (nonlinear_arith)
        requires
            -10_550_000 <= 2 * ((g + 550_000) * (FX_ONE as int) - t * 10_550_000) <= 10_550_000,
            -1000 <= 2 * (1055 * p - m * 1000) <= 1000,
            g == m - 550_000,
            (FX_ONE as int) == 10_000_000,
    ;
    crate::fixed::lemma_iroot_spec_props(t * 10_000_000_000_000_000_000_000_000_000, 5);
    let f = iroot_spec(t * 10_000_000_000_000_000_000_000_000_000, 5);
    crate::fixed::lemma_power5_val(f);
    crate::fixed::lemma_power5_val(f + 1);
    let f5 = ((f * f) * (f * f)) * f;
    let f15 = (((f + 1) * (f + 1)) * ((f + 1) * (f + 1))) * (f + 1);
    // the decoder's fifth root lands within one of q
    if f >= q + 1 {
        crate::fixed::lemma_power5_val(q + 1);
        assert(f5 >= (((q + 1) * (q + 1)) * ((q + 1) * (q + 1))) * (q + 1)) by (nonlinear_arith)
            requires
                f5 == ((f * f) * (f * f)) * f,
                0 <= q + 1 <= f,
        ;
        assert((((q + 1) * (q + 1)) * ((q + 1) * (q + 1))) * (q + 1) >= q5 + 5 * ((q * q) * (q
            * q))) by (nonlinear_arith)
            requires
                q5 == ((q * q) * (q * q)) * q,
                0 <= q,
        ;
        assert(5 * ((q * q) * (q * q)) >= 6_480_000_000_000_000_000_000_000_000) by (
        nonlinear_arith)
            requires
                6_000_000 <= q,
        ;
        assert(false);
    }
    if f <= q - 2 {
        crate::fixed::lemma_power5_val(q - 1);
        assert(f15 <= (((q - 1) * (q - 1)) * ((q - 1) * (q - 1))) * (q - 1)) by (nonlinear_arith)
            requires
                f15 == (((f + 1) * (f + 1)) * ((f + 1) * (f + 1))) * (f + 1),
                0 <= f + 1 <= q - 1,
        ;
        assert((((q - 1) * (q - 1)) * ((q - 1) * (q - 1))) * (q - 1) <= q5 - 5 * (((q - 1) * (q
            - 1)) * ((q - 1) * (q - 1)))) by (nonlinear_arith)
            requires
                q5 == ((q * q) * (q * q)) * q,
                1 <= q,
        ;
        assert(5 * (((q - 1) * (q - 1)) * ((q - 1) * (q - 1)))
            >= 6_479_995_680_001_079_999_880_000_005) by (nonlinear_arith)
            requires
                6_000_000 <= q,
        ;
        assert(false);
    }
    // the fourth power of f, squeezed between those of q-1 and q
    let h = power(f, 4);
    crate::fixed::lemma_power4_val(f);
    crate::fixed::lemma_power4_val(q - 1);
    let qm4 = ((q - 1) * (q - 1)) * ((q - 1) * (q - 1));
    let q13 = ((q + 1) * (q + 1)) * (q + 1);
    assert(0 <= h <= q4) by (nonlinear_arith)
        requires
            h == (f * f) * (f * f),
            q4 == (q * q) * (q * q),
            0 <= f <= q,
    ;
    assert(h >= qm4) by (nonlinear_arith)
        requires
            h == (f * f) * (f * f),
            qm4 == ((q - 1) * (q - 1)) * ((q - 1) * (q - 1)),
            0 <= q - 1 <= f,
    ;
    assert(qm4 >= q14 - 8 * q13) by (nonlinear_arith)
        requires
            qm4 == ((q - 1) * (q - 1)) * ((q - 1) * (q - 1)),
            q14 == ((q + 1) * (q + 1)) * ((q + 1) * (q + 1)),
            q13 == ((q + 1) * (q + 1)) * (q + 1),
            1 <= q,
    ;
    assert(0 <= q13 && 8 * q13 <= q14) by (nonlinear_arith)
        requires
            q13 == ((q + 1) * (q + 1)) * (q + 1),
            q14 == ((q + 1) * (q + 1)) * ((q + 1) * (q + 1)),
            7 <= q,
    ;
    // h^3 is within 24 units (at the 10^77 scale) of ((q+1)^4)^3 below,
    // and below (q^4)^3
    assert((h * h) * h >= (q14 * q14) * q14 - 24 * (q13 * (q14 * q14))) by (nonlinear_arith)
        requires
            h >= q14 - 8 * q13,
            0 <= 8 * q13 <= q14,
            0 <= q13,
    ;
    assert(q13 <= 1_000_000_000_000_000_000_000) by (nonlinear_arith)
        requires
            q13 == ((q + 1) * (q + 1)) * (q + 1),
            0 <= q + 1 <= 10_000_000,
    ;
    assert(q14 <= 10_000_000_000_000_000_000_000_000_000) by (nonlinear_arith)
        requires
            q14 == ((q + 1) * (q + 1)) * ((q + 1) * (q + 1)),
            0 <= q + 1 <= 10_000_000,
    ;
    assert(q13 * (q14 * q14)
        <= 100_000_000_000_000_000_000_000_000_000_000_000_000_000_000_000_000_000_000_000_000_000_000_000_000_000)
        by (nonlinear_arith)
        requires
            0 <= q13 <= 1_000_000_000_000_000_000_000,
            0 <= q14 <= 10_000_000_000_000_000_000_000_000_000,
    ;
    assert((h * h) * h <= (q4 * q4) * q4) by (nonlinear_arith)
        requires
            0 <= h <= q4,
    ;
    // translate both bounds to the channel scale
    assert((h * h) * h >= x
        * 100_000_000_000_000_000_000_000_000_000_000_000_000_000_000_000_000_000_000_000_000_000_000_000_000_000
        - 27
        * 100_000_000_000_000_000_000_000_000_000_000_000_000_000_000_000_000_000_000_000_000_000_000_000_000_000);
    assert((h * h) * h <= x
        * 100_000_000_000_000_000_000_000_000_000_000_000_000_000_000_000_000_000_000_000_000_000_000_000_000_000);
    // the last two roundings move the result by under three channel units
    let g4 = rdiv(h, 1_000_000_000_000_000_000_000);
    crate::fixed::lemma_rdiv_error(h, 1_000_000_000_000_000_000_000);
    crate::fixed::lemma_rdiv_nonneg(h, 1_000_000_000_000_000_000_000);
    assert(h <= 9_999_999_000_000_000_000_000_000_000);
    assert(g4 <= 10_000_000);
    assert(-(2
        * 100_000_000_000_000_000_000_000_000_000_000_000_000_000_000_000_000_000_000_000_000_000_000_000_000_000)
        <= ((g4 * g4) * g4)
        * 1_000_000_000_000_000_000_000_000_000_000_000_000_000_000_000_000_000_000_000_000_000 - (h
        * h) * h <= 2
        * 100_000_000_000_000_000_000_000_000_000_000_000_000_000_000_000_000_000_000_000_000_000_000_000_000_000)
        by (nonlinear_arith)
        requires
            -1_000_000_000_000_000_000_000 <= 2 * (h - g4 * 1_000_000_000_000_000_000_000)
                <= 1_000_000_000_000_000_000_000,
            0 <= h <= 10_000_000_000_000_000_000_000_000_000,
            0 <= g4 <= 10_000_000,
    ;
    assert((x - 29) * 100_000_000_000_000 <= (g4 * g4) * g4 <= (x + 2) * 100_000_000_000_000);
    let w = rdiv(g4 * g4 * g4, 100_000_000_000_000);
    crate::fixed::lemma_rdiv_error(g4 * g4 * g4, 100_000_000_000_000);
    assert(x - 30 <= w <= x + 3);
    assert(gamma_decode_spec(g) == if w >= FX_ONE as int {
        FX_ONE as int
    } else {
        w
    });
}

/// Encoding a linear channel and decoding it back recovers it within
/// 10^-5 for every channel value in [0, 1]: below the linear threshold
/// the round trip is exact, and on the power branch it moves the channel
/// by at most a few dozen units of the seventh decimal.
pub proof fn lemma_gamma_round_trip(x: int)
    requires
        0 <= x <= FX_ONE as int,
    ensures
        abs(gamma_decode_spec(gamma_encode_spec(x)) - x) <= 100,
{
    if x <= 31_308 {
        let m = rdiv(1292 * x, 100);
        crate::fixed::lemma_rdiv_error(1292 * x, 100);
        crate::fixed::lemma_rdiv_mono(1292 * x, 40_449_936, 100);
        crate::fixed::lemma_rdiv_error(100 * m, 1292);
        crate::fixed::lemma_rdiv_unique(100 * m, 1292, x);
    } else if x == FX_ONE as int {
        // both directions saturate at white exactly
    } else {
        lemma_gamma_round_trip_power(x);
    }
}

/// On the encoder's power branch, the twelfth root recomputed from `w` (a
/// cube root, then a fourth root) lands within `k2` of any reference `f`
/// whose twelfth power is within 2.6 units of `w` at the common 10^77
/// scale.  The constants `k1` (slack of the cube root, in units of 10^21)
/// and `k2` (slack of the fourth root) are chosen per band `[flo, fhi]`
/// of `f`; the arithmetic premises are checked concretely at each call.
proof fn lemma_encode_root_tracks(w: int, f: int, flo: int, fhi: int, k1: int, k2: int)
    requires
        1 <= w,
        6_000_000 <= flo <= f <= fhi <= 10_000_000,
        1 <= k1,
        2 <= k2 <= 100,
        (k1 - 1) * 1_000_000_000_000_000_000_000 <= (flo * flo) * (flo * flo),
        -(13
            * 100_000_000_000_000_000_000_000_000_000_000_000_000_000_000_000_000_000_000_000_000_000_000_000_000_000)
            <= 5 * (w
            * 100_000_000_000_000_000_000_000_000_000_000_000_000_000_000_000_000_000_000_000_000_000_000_000_000_000
            - (((f * f) * (f * f)) * ((f * f) * (f * f))) * ((f * f) * (f * f))) <= 13
            * 100_000_000_000_000_000_000_000_000_000_000_000_000_000_000_000_000_000_000_000_000_000_000_000_000_000,
        15 * (k1 * (((flo * flo) * (flo * flo)) * ((flo * flo) * (flo * flo)))) >= 13
            * 100_000_000_000_000_000_000_000_000_000_000_000_000_000_000_000_000_000_000 + 1,
        15 * ((((k1 - 1) * 1_000_000_000_000_000_000_000) * ((flo * flo) * (flo * flo))) * (((flo
            * flo) * (flo * flo)) - (k1 - 1) * 1_000_000_000_000_000_000_000)) >= 13
            * 100_000_000_000_000_000_000_000_000_000_000_000_000_000_000_000_000_000_000_000_000_000_000_000_000_000
            + 5,
        4 * (k2 * ((flo * flo) * flo)) >= k1 * 1_000_000_000_000_000_000_000 + 1,
        4 * ((k2 - 1) * ((flo * flo) * flo)) - 6 * (((k2 - 1) * (k2 - 1)) * (fhi * fhi)) - ((k2 - 1)
            * (k2 - 1)) * ((k2 - 1) * (k2 - 1)) >= k1 * 1_000_000_000_000_000_000_000 + 1,
    ensures
        ({
            let c = iroot_spec(w * 100_000_000_000_000, 3);
            let q = iroot_spec(c * 1_000_000_000_000_000_000_000, 4);
            f - k2 < q < f + k2
        }),
{
    crate::fixed::lemma_iroot_spec_props(w * 100_000_000_000_000, 3);
    let c = iroot_spec(w * 100_000_000_000_000, 3);
    crate::fixed::lemma_power3_val(c);
    crate::fixed::lemma_power3_val(c + 1);
    let f2 = f * f;
    let f3 = f2 * f;
    let f4 = f2 * f2;
    let f8 = f4 * f4;
    let f12 = f8 * f4;
    let flo3 = (flo * flo) * flo;
    let flo4 = (flo * flo) * (flo * flo);
    let flo8 = flo4 * flo4;
    assert(flo3 <= f3 && flo4 <= f4 && f2 <= fhi * fhi && 0 <= f3) by (nonlinear_arith)
        requires
            0 <= flo <= f <= fhi,
            f2 == f * f,
            f3 == f2 * f,
            f4 == f2 * f2,
            flo3 == (flo * flo) * flo,
            flo4 == (flo * flo) * (flo * flo),
    ;
    assert(flo8 <= f8 && 0 <= f8) by (nonlinear_arith)
        requires
            0 <= flo4 <= f4,
            f8 == f4 * f4,
            flo8 == flo4 * flo4,
    ;
    let u3 = 1_000_000_000_000_000_000_000int;
    // the cube root stays within k1 * 10^21 of f^4
    if c * u3 >= f4 + k1 * u3 {
        assert(((c * u3) * (c * u3)) * (c * u3) == (((c * c) * c))
            * 1_000_000_000_000_000_000_000_000_000_000_000_000_000_000_000_000_000_000_000_000_000)
            by (nonlinear_arith)
            requires
                u3 == 1_000_000_000_000_000_000_000,
        ;
        assert(((c * u3) * (c * u3)) * (c * u3) >= f12 + 3 * ((k1 * u3) * f8)) by (nonlinear_arith)
            requires
                c * u3 >= f4 + k1 * u3,
                0 <= f4,
                1 <= k1,
                u3 == 1_000_000_000_000_000_000_000,
                f8 == f4 * f4,
                f12 == f8 * f4,
        ;
        assert((k1 * u3) * f8 >= (k1 * u3) * flo8) by (nonlinear_arith)
            requires
                flo8 <= f8,
                1 <= k1,
                u3 == 1_000_000_000_000_000_000_000,
        ;
        assert(15 * ((k1 * u3) * flo8) >= 13
            * 100_000_000_000_000_000_000_000_000_000_000_000_000_000_000_000_000_000_000_000_000_000_000_000_000_000
            + u3) by (nonlinear_arith)
            requires
                15 * (k1 * flo8) >= 13
                    * 100_000_000_000_000_000_000_000_000_000_000_000_000_000_000_000_000_000_000
                    + 1,
                u3 == 1_000_000_000_000_000_000_000,
        ;
        assert(false);
    }
    if c * u3 <= f4 - k1 * u3 {
        let a = f4;
        let b = (k1 - 1) * u3;
        assert((c + 1) * u3 <= a - b);
        assert((((c + 1) * (c + 1)) * (c + 1))
            * 1_000_000_000_000_000_000_000_000_000_000_000_000_000_000_000_000_000_000_000_000_000
            == (((c + 1) * u3) * ((c + 1) * u3)) * ((c + 1) * u3)) by (nonlinear_arith)
            requires
                u3 == 1_000_000_000_000_000_000_000,
        ;
        assert((((c + 1) * u3) * ((c + 1) * u3)) * ((c + 1) * u3) <= ((a - b) * (a - b)) * (a - b))
            by (nonlinear_arith)
            requires
                0 <= (c + 1) * u3 <= a - b,
        ;
        assert(((a - b) * (a - b)) * (a - b) <= f12 - 3 * ((b * a) * (a - b))) by (nonlinear_arith)
            requires
                a == f4,
                0 <= b,
                f12 == (f4 * f4) * f4,
        ;
        assert((b * a) * (a - b) >= (b * flo4) * (flo4 - b)) by (nonlinear_arith)
            requires
                flo4 <= a,
                0 <= b <= flo4,
        ;
        assert(false);
    }
    crate::fixed::lemma_iroot_spec_props(c * 1_000_000_000_000_000_000_000, 4);
    let q = iroot_spec(c * 1_000_000_000_000_000_000_000, 4);
    crate::fixed::lemma_power4_val(q);
    crate::fixed::lemma_power4_val(q + 1);
    // the fourth root stays within k2 of f
    if q >= f + k2 {
        assert((q * q) * (q * q) >= ((f + k2) * (f + k2)) * ((f + k2) * (f + k2))) by (
        nonlinear_arith)
            requires
                0 <= f + k2 <= q,
        ;
        assert(((f + k2) * (f + k2)) * ((f + k2) * (f + k2)) >= f4 + 4 * (k2 * f3)) by (
        nonlinear_arith)
            requires
                0 <= f,
                0 <= k2,
                f3 == (f * f) * f,
                f4 == (f * f) * (f * f),
        ;
        assert(k2 * f3 >= k2 * flo3) by (nonlinear_arith)
            requires
                flo3 <= f3,
                0 <= k2,
        ;
        assert(false);
    }
    if q <= f - k2 {
        assert(((q + 1) * (q + 1)) * ((q + 1) * (q + 1)) <= ((f - (k2 - 1)) * (f - (k2 - 1))) * ((f
            - (k2 - 1)) * (f - (k2 - 1)))) by (nonlinear_arith)
            requires
                0 <= q + 1 <= f - (k2 - 1),
        ;
        assert(((f - (k2 - 1)) * (f - (k2 - 1))) * ((f - (k2 - 1)) * (f - (k2 - 1))) <= f4 - 4 * ((
        k2 - 1) * f3) + 6 * (((k2 - 1) * (k2 - 1)) * f2) + ((k2 - 1) * (k2 - 1)) * ((k2 - 1) * (k2
            - 1))) by (nonlinear_arith)
            requires
                0 <= k2 - 1 <= f,
                f2 == f * f,
                f3 == f2 * f,
                f4 == f2 * f2,
        ;
        assert((k2 - 1) * f3 >= (k2 - 1) * flo3) by (nonlinear_arith)
            requires
                flo3 <= f3,
                1 <= k2,
        ;
        assert(((k2 - 1) * (k2 - 1)) * f2 <= ((k2 - 1) * (k2 - 1)) * (fhi * fhi)) by (
        nonlinear_arith)
            requires
                f2 <= fhi * fhi,
        ;
        assert(false);
    }
}

/// Two values within `k2` of each other have fifth powers within `perr`,
/// on a domain bounded by `fmax`.
proof fn lemma_pow5_within(q: int, f: int, k2: int, fmax: int, perr: int)
    requires
        0 <= q,
        k2 <= f <= fmax,
        1 <= k2,
        f - k2 < q < f + k2,
        5 * (k2 * (((fmax + k2) * (fmax + k2)) * ((fmax + k2) * (fmax + k2)))) <= perr,
    ensures
        -perr <= ((q * q) * (q * q)) * q - ((f * f) * (f * f)) * f <= perr,
{
    assert(((q * q) * (q * q)) * q <= (((f + k2) * (f + k2)) * ((f + k2) * (f + k2))) * (f + k2))
        by (nonlinear_arith)
        requires
            0 <= q <= f + k2,
    ;
    assert((((f + k2) * (f + k2)) * ((f + k2) * (f + k2))) * (f + k2) <= ((f * f) * (f * f)) * f + 5
        * (k2 * (((f + k2) * (f + k2)) * ((f + k2) * (f + k2))))) by (nonlinear_arith)
        requires
            0 <= f,
            0 <= k2,
    ;
    assert(k2 * (((f + k2) * (f + k2)) * ((f + k2) * (f + k2))) <= k2 * (((fmax + k2) * (fmax + k2))
        * ((fmax + k2) * (fmax + k2)))) by (nonlinear_arith)
        requires
            0 <= f + k2 <= fmax + k2,
            0 <= k2,
    ;
    assert(((q * q) * (q * q)) * q >= (((f - k2) * (f - k2)) * ((f - k2) * (f - k2))) * (f - k2))
        by (nonlinear_arith)
        requires
            0 <= f - k2 <= q,
    ;
    assert((((f - k2) * (f - k2)) * ((f - k2) * (f - k2))) * (f - k2) >= ((f * f) * (f * f)) * f - 5
        * (k2 * ((f * f) * (f * f)))) by (nonlinear_arith)
        requires
            0 <= k2 <= f,
    ;
    assert(k2 * ((f * f) * (f * f)) <= k2 * (((fmax + k2) * (fmax + k2)) * ((fmax + k2) * (fmax
        + k2)))) by (nonlinear_arith)
        requires
            0 <= f <= fmax + k2,
            0 <= k2,
    ;
}

/// The power branch of the inverse transfer-function round trip: decoding
/// an encoded channel above the linear threshold and re-encoding it
/// recovers it within 10^-5.  The decoder's fifth root `f` anchors both
/// sides: the decoded value stays within 2.6 units of `f^12` at the 10^77
/// scale, so the encoder's recomputed roots land within a few dozen of
/// `f`, and the final affine step maps that back to within 85 of `v`.
proof fn lemma_gamma_inverse_round_trip_power(v: int)
    requires
        404_501 <= v <= 9_999_999,
    ensures
        abs(gamma_encode_spec(gamma_decode_spec(v)) - v) <= 100,
{
    assert((FX_ONE as int) == 10_000_000);
    let t = rdiv((v + 550_000) * (FX_ONE as int), 10_550_000);
    crate::fixed::lemma_rdiv_error((v + 550_000) * (FX_ONE as int), 10_550_000);
    crate::fixed::lemma_mul_mono_left(954_501, v + 550_000, FX_ONE as int);
    crate::fixed::lemma_rdiv_mono(
        954_501 * (FX_ONE as int),
        (v + 550_000) * (FX_ONE as int),
        10_550_000,
    );
    assert(954_501 * (FX_ONE as int) == 9_545_010_000_000);
    assert(rdiv(9_545_010_000_000, 10_550_000) == 904_740);
    crate::fixed::lemma_mul_mono_left(v + 550_000, 10_549_999, FX_ONE as int);
    crate::fixed::lemma_rdiv_mono(
        (v + 550_000) * (FX_ONE as int),
        10_549_999 * (FX_ONE as int),
        10_550_000,
    );
    assert(10_549_999 * (FX_ONE as int) == 105_499_990_000_000);
    assert(rdiv(105_499_990_000_000, 10_550_000) == 9_999_999);
    assert(904_740 <= t <= 9_999_999);
    crate::fixed::lemma_iroot_spec_props(t * 10_000_000_000_000_000_000_000_000_000, 5);
    let f = iroot_spec(t * 10_000_000_000_000_000_000_000_000_000, 5);
    crate::fixed::lemma_power5_val(f);
    crate::fixed::lemma_power5_val(f + 1);
    let f5 = ((f * f) * (f * f)) * f;
    if f <= 6_179_999 {
        assert((((f + 1) * (f + 1)) * ((f + 1) * (f + 1))) * (f + 1)
            <= 9_014_515_201_756_800_000_000_000_000_000_000) by (nonlinear_arith)
            requires
                0 <= f + 1 <= 6_180_000,
        ;
        assert(false);
    }
    if f >= 10_000_000 {
        assert(((f * f) * (f * f)) * f >= 100_000_000_000_000_000_000_000_000_000_000_000) by (
        nonlinear_arith)
            requires
                f >= 10_000_000,
        ;
        assert(false);
    }
    let h = power(f, 4);
    crate::fixed::lemma_power4_val(f);
    let f4p = (f * f) * (f * f);
    let f12 = (f4p * f4p) * f4p;
    assert(0 <= h <= 9_999_996_000_000_599_999_960_000_001) by (nonlinear_arith)
        requires
            h == (f * f) * (f * f),
            0 <= f <= 9_999_999,
    ;
    let g4 = rdiv(h, 1_000_000_000_000_000_000_000);
    crate::fixed::lemma_rdiv_error(h, 1_000_000_000_000_000_000_000);
    crate::fixed::lemma_rdiv_nonneg(h, 1_000_000_000_000_000_000_000);
    assert(g4 <= 9_999_996);
    assert(0 <= (g4 * g4) * g4 <= 999_998_800_000_479_999_936) by (nonlinear_arith)
        requires
            0 <= g4 <= 9_999_996,
    ;
    let w = rdiv(g4 * g4 * g4, 100_000_000_000_000);
    crate::fixed::lemma_rdiv_error(g4 * g4 * g4, 100_000_000_000_000);
    crate::fixed::lemma_rdiv_nonneg(g4 * g4 * g4, 100_000_000_000_000);
    assert(w <= 9_999_988);
    assert(gamma_decode_spec(v) == w);
    assert(h == f4p);
    assert(-(2
        * 100_000_000_000_000_000_000_000_000_000_000_000_000_000_000_000_000_000_000_000_000_000_000_000_000_000)
        <= ((g4 * g4) * g4)
        * 1_000_000_000_000_000_000_000_000_000_000_000_000_000_000_000_000_000_000_000_000_000 - (h
        * h) * h <= 2
        * 100_000_000_000_000_000_000_000_000_000_000_000_000_000_000_000_000_000_000_000_000_000_000_000_000_000)
        by (nonlinear_arith)
        requires
            -1_000_000_000_000_000_000_000 <= 2 * (h - g4 * 1_000_000_000_000_000_000_000)
                <= 1_000_000_000_000_000_000_000,
            0 <= h <= 10_000_000_000_000_000_000_000_000_000,
            0 <= g4 <= 10_000_000,
    ;
    assert((h * h) * h == f12);
    assert(-(13
        * 100_000_000_000_000_000_000_000_000_000_000_000_000_000_000_000_000_000_000_000_000_000_000_000_000_000)
        <= 5 * (w
        * 100_000_000_000_000_000_000_000_000_000_000_000_000_000_000_000_000_000_000_000_000_000_000_000_000_000
        - f12) <= 13
        * 100_000_000_000_000_000_000_000_000_000_000_000_000_000_000_000_000_000_000_000_000_000_000_000_000_000);
    if w <= 31_308 {
        // the encoded value sits on the linear side; the channel is pinned
        // to a narrow strip just above the threshold
        if f >= 6_184_544 {
            assert(f4p >= 1_462_954_215_330_778_403_329_540_096) by (nonlinear_arith)
                requires
                    f >= 6_184_544,
                    f4p == (f * f) * (f * f),
            ;
            assert(f12
                >= 3_131_065_867_940_252_067_522_658_563_023_864_545_978_335_911_230_769_170_862_963_837_004_903_395_922_804_736)
                by (nonlinear_arith)
                requires
                    f4p >= 1_462_954_215_330_778_403_329_540_096,
                    f12 == (f4p * f4p) * f4p,
            ;
            assert(false);
        }
        assert((((f + 1) * (f + 1)) * ((f + 1) * (f + 1))) * (f + 1)
            <= 9_047_704_714_698_673_589_641_287_223_476_224) by (nonlinear_arith)
            requires
                0 <= f + 1 <= 6_184_544,
        ;
        assert(t <= 904_770);
        assert(v <= 404_532);
        if f <= 6_184_501 {
            assert((((f + 1) * (f + 1)) * ((f + 1) * (f + 1))) * (f + 1)
                <= 9_047_397_498_486_168_735_988_763_714_760_032) by (nonlinear_arith)
                requires
                    0 <= f + 1 <= 6_184_502,
            ;
            assert(false);
        }
        assert(f4p >= 1_462_914_475_326_577_424_663_904_016) by (nonlinear_arith)
            requires
                f >= 6_184_502,
                f4p == (f * f) * (f * f),
        ;
        assert(f12
            >= 3_130_810_716_023_395_814_277_040_089_697_865_135_455_690_972_647_100_059_100_067_764_946_154_424_246_276_096)
            by (nonlinear_arith)
            requires
                f4p >= 1_462_914_475_326_577_424_663_904_016,
                f12 == (f4p * f4p) * f4p,
        ;
        assert(w >= 31_306);
        assert(gamma_encode_spec(w) == rdiv(1292 * w, 100));
        crate::fixed::lemma_rdiv_error(1292 * w, 100);
        crate::fixed::lemma_rdiv_mono(1292 * 31_306int, 1292 * w, 100);
        crate::fixed::lemma_rdiv_mono(1292 * w, 1292 * 31_308int, 100);
    } else {
        let c = iroot_spec(w * 100_000_000_000_000, 3);
        let q = iroot_spec(c * 1_000_000_000_000_000_000_000, 4);
        if f < 7_000_000 {
            assert((50 - 1) * 1_000_000_000_000_000_000_000 <= ((6_180_000 * 6_180_000) * (6_180_000 * 6_180_000))) by (nonlinear_arith);
            assert(15 * (50 * (((6_180_000 * 6_180_000) * (6_180_000 * 6_180_000)) * ((6_180_000 * 6_180_000) * (6_180_000 * 6_180_000)))) >= 13 * 100_000_000_000_000_000_000_000_000_000_000_000_000_000_000_000_000_000_000 + 1) by (nonlinear_arith);
            assert(15 * ((((50 - 1) * 1_000_000_000_000_000_000_000) * ((6_180_000 * 6_180_000) * (6_180_000 * 6_180_000))) * (((6_180_000 * 6_180_000) * (6_180_000 * 6_180_000)) - (50 - 1) * 1_000_000_000_000_000_000_000)) >= 13
                * 100_000_000_000_000_000_000_000_000_000_000_000_000_000_000_000_000_000_000_000_000_000_000_000_000_000 + 5) by (nonlinear_arith);
            assert(4 * (60 * ((6_180_000 * 6_180_000) * 6_180_000)) >= 50 * 1_000_000_000_000_000_000_000 + 1) by (nonlinear_arith);
            assert(4 * ((60 - 1) * ((6_180_000 * 6_180_000) * 6_180_000)) - 6 * (((60 - 1) * (60 - 1)) * (7_000_000 * 7_000_000)) - ((60
                - 1) * (60 - 1)) * ((60 - 1) * (60 - 1)) >= 50 * 1_000_000_000_000_000_000_000 + 1) by (nonlinear_arith);
            assert(5 * (60 * (((7_000_000 + 60) * (7_000_000 + 60)) * ((7_000_000 + 60) * (7_000_000 + 60)))) <= 720_324_696_317_521_814_403_888_000_000) by (nonlinear_arith);
            lemma_encode_root_tracks(w, f, 6_180_000, 7_000_000, 50, 60);
            lemma_pow5_within(q, f, 60, 7_000_000, 720_324_696_317_521_814_403_888_000_000);
        } else if f < 8_500_000 {
            assert((19 - 1) * 1_000_000_000_000_000_000_000 <= ((7_000_000 * 7_000_000) * (7_000_000 * 7_000_000))) by (nonlinear_arith);
            assert(15 * (19 * (((7_000_000 * 7_000_000) * (7_000_000 * 7_000_000)) * ((7_000_000 * 7_000_000) * (7_000_000 * 7_000_000)))) >= 13 * 100_000_000_000_000_000_000_000_000_000_000_000_000_000_000_000_000_000_000 + 1) by (nonlinear_arith);
            assert(15 * ((((19 - 1) * 1_000_000_000_000_000_000_000) * ((7_000_000 * 7_000_000) * (7_000_000 * 7_000_000))) * (((7_000_000 * 7_000_000) * (7_000_000 * 7_000_000)) - (19 - 1) * 1_000_000_000_000_000_000_000)) >= 13
                * 100_000_000_000_000_000_000_000_000_000_000_000_000_000_000_000_000_000_000_000_000_000_000_000_000_000 + 5) by (nonlinear_arith);
            assert(4 * (18 * ((7_000_000 * 7_000_000) * 7_000_000)) >= 19 * 1_000_000_000_000_000_000_000 + 1) by (nonlinear_arith);
            assert(4 * ((18 - 1) * ((7_000_000 * 7_000_000) * 7_000_000)) - 6 * (((18 - 1) * (18 - 1)) * (8_500_000 * 8_500_000)) - ((18
                - 1) * (18 - 1)) * ((18 - 1) * (18 - 1)) >= 19 * 1_000_000_000_000_000_000_000 + 1) by (nonlinear_arith);
            assert(5 * (18 * (((8_500_000 + 18) * (8_500_000 + 18)) * ((8_500_000 + 18) * (8_500_000 + 18)))) <= 469_809_604_542_640_877_845_929_447_840) by (nonlinear_arith);
            lemma_encode_root_tracks(w, f, 7_000_000, 8_500_000, 19, 18);
            lemma_pow5_within(q, f, 18, 8_500_000, 469_809_604_542_640_877_845_929_447_840);
        } else {
            assert((5 - 1) * 1_000_000_000_000_000_000_000 <= ((8_500_000 * 8_500_000) * (8_500_000 * 8_500_000))) by (nonlinear_arith);
            assert(15 * (5 * (((8_500_000 * 8_500_000) * (8_500_000 * 8_500_000)) * ((8_500_000 * 8_500_000) * (8_500_000 * 8_500_000)))) >= 13 * 100_000_000_000_000_000_000_000_000_000_000_000_000_000_000_000_000_000_000 + 1) by (nonlinear_arith);
            assert(15 * ((((5 - 1) * 1_000_000_000_000_000_000_000) * ((8_500_000 * 8_500_000) * (8_500_000 * 8_500_000))) * (((8_500_000 * 8_500_000) * (8_500_000 * 8_500_000)) - (5 - 1) * 1_000_000_000_000_000_000_000)) >= 13
                * 100_000_000_000_000_000_000_000_000_000_000_000_000_000_000_000_000_000_000_000_000_000_000_000_000_000 + 5) by (nonlinear_arith);
            assert(4 * (5 * ((8_500_000 * 8_500_000) * 8_500_000)) >= 5 * 1_000_000_000_000_000_000_000 + 1) by (nonlinear_arith);
            assert(4 * ((5 - 1) * ((8_500_000 * 8_500_000) * 8_500_000)) - 6 * (((5 - 1) * (5 - 1)) * (10_000_000 * 10_000_000)) - ((5
                - 1) * (5 - 1)) * ((5 - 1) * (5 - 1)) >= 5 * 1_000_000_000_000_000_000_000 + 1) by (nonlinear_arith);
            assert(5 * (5 * (((10_000_000 + 5) * (10_000_000 + 5)) * ((10_000_000 + 5) * (10_000_000 + 5)))) <= 250_000_500_000_375_000_125_000_015_625) by (nonlinear_arith);
            lemma_encode_root_tracks(w, f, 8_500_000, 10_000_000, 5, 5);
            lemma_pow5_within(q, f, 5, 10_000_000, 250_000_500_000_375_000_125_000_015_625);
        }
        assert(-720_324_696_317_521_814_403_888_000_000 <= ((q * q) * (q * q)) * q - f5
            <= 720_324_696_317_521_814_403_888_000_000);
        crate::fixed::lemma_power5_val(q);
        let p = rdiv(power(q, 5), 10_000_000_000_000_000_000_000_000_000);
        crate::fixed::lemma_rdiv_error(power(q, 5), 10_000_000_000_000_000_000_000_000_000);
        assert((((f + 1) * (f + 1)) * ((f + 1) * (f + 1))) * (f + 1) <= f5 + 6
            * 10_000_000_000_000_000_000_000_000_000) by (nonlinear_arith)
            requires
                0 <= f <= 9_999_999,
                f5 == ((f * f) * (f * f)) * f,
        ;
        assert(-78 <= p - t <= 78);
        let m = rdiv(1055 * p, 1000);
        crate::fixed::lemma_rdiv_error(1055 * p, 1000);
        let g = m - 550_000;
        assert(gamma_encode_spec(w) == (if g >= FX_ONE as int {
            FX_ONE as int
        } else {
            g
        }));
        assert(-85 <= g - v <= 85) by (nonlinear_arith)
            requires
                -10_550_000 <= 2 * ((v + 550_000) * (FX_ONE as int) - t * 10_550_000)
                    <= 10_550_000,
                -1000 <= 2 * (1055 * p - m * 1000) <= 1000,
                g == m - 550_000,
                -78 <= p - t <= 78,
                (FX_ONE as int) == 10_000_000,
        ;
    }
}

/// Decoding an encoded channel and re-encoding it recovers it within
/// 10^-5 for every channel value in [0, 1]: below the threshold the round
/// trip is exact to within the last digit, and above it the channel moves
/// by at most 85 units of the seventh decimal.
pub proof fn lemma_gamma_inverse_round_trip(v: int)
    requires
        0 <= v <= FX_ONE as int,
    ensures
        abs(gamma_encode_spec(gamma_decode_spec(v)) - v) <= 100,
{
    if v <= 404_500 {
        let w = rdiv(100 * v, 1292);
        crate::fixed::lemma_rdiv_error(100 * v, 1292);
        crate::fixed::lemma_rdiv_mono(100 * v, 40_450_000, 1292);
        crate::fixed::lemma_rdiv_error(1292 * w, 100);
    } else if v == FX_ONE as int {
        // both directions saturate at white exactly
    } else {
        lemma_gamma_inverse_round_trip_power(v);
    }
}

/// Converting an XYZ value at D65 to linear sRGB and back recovers it
/// within 10^-5 per channel: the published matrix pair composes to the
/// identity at this precision.
#[verifier::rlimit(30)]
pub proof fn lemma_linear_srgb_round_trip(x: int, y: int, z: int)
    requires
        abs(x) <= 1_000_000_000,
        abs(y) <= 1_000_000_000,
        abs(z) <= 1_000_000_000,
    ensures
        ({
            let (a1, a2, a3) = xyz_to_linear_spec(x, y, z);
            let (r1, r2, r3) = linear_to_xyz_spec(a1, a2, a3);
            abs(r1 - x) <= 100 && abs(r2 - y) <= 100 && abs(r3 - z) <= 100
        }),
{
    let n1 = 3_240_625_500 * x + -1_537_208_000 * y + -498_628_600 * z;
    let n2 = -968_930_710 * x + 1_875_756_100 * y + 41_517_524 * z;
    let n3 = 55_710_120 * x + -204_021_050 * y + 1_056_995_900 * z;
    assert(412_400_000 * n1 + 357_600_000 * n2 + 180_500_000 * n3
        - 1_000_000_000_000_000_000 * x == 10_964_000_000 * x + 2_635_000_000 * y + -8_107_600_000 * z);
    crate::fixed::lemma_mat3_round_trip_channel(
        412_400_000,
        357_600_000,
        180_500_000,
        n1,
        n2,
        n3,
        1_000_000_000,
        1_000_000_000,
        x,
        21_706_600_000_000_000_000,
        100,
    );
    assert(212_600_000 * n1 + 715_200_000 * n2 + 72_200_000 * n3
        - 1_000_000_000_000_000_000 * y == 8_172_000_000 * x + 22_110_000_000 * y + -3_215_200_000 * z);
    crate::fixed::lemma_mat3_round_trip_channel(
        212_600_000,
        715_200_000,
        72_200_000,
        n1,
        n2,
        n3,
        1_000_000_000,
        1_000_000_000,
        y,
        33_497_200_000_000_000_000,
        100,
    );
    assert(19_300_000 * n1 + 119_200_000 * n2 + 950_500_000 * n3
        - 1_000_000_000_000_000_000 * z == 578_000_000 * x + 4_695_000_000 * y + -40_169_200_000 * z);
    crate::fixed::lemma_mat3_round_trip_channel(
        19_300_000,
        119_200_000,
        950_500_000,
        n1,
        n2,
        n3,
        1_000_000_000,
        1_000_000_000,
        z,
        45_442_200_000_000_000_000,
        100,
    );
}

} // verus!
