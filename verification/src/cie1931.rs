//! The CIE 1931 XYZ tristimulus space, tagged with its reference
//! illuminant, together with the chromaticity-only xy and xyY projections
//! and the Bradford-style chromatic adaptation between D50 and D65.
//!
//! Values are normalized so that the reference white has Y = 1.0 (not
//! Y = 100), carried in fixed point as `crate::fixed` describes.  The
//! illuminant is a compile-time marker type: two XYZ values at different
//! white points cannot be mixed without an explicit adaptation step.

use core::marker::PhantomData;
use vstd::math::abs;
use vstd::prelude::*;

use crate::fixed::{dot3_spec, fx3_in_range, rdiv, rdiv_signed, FX_MAX_ABS, FX_ONE};

verus! {

/// The CIE D50 reference illuminant (horizon light).
#[derive(Debug, Clone, Copy)]
pub struct D50;

/// The CIE D60 reference illuminant (the ACES white point).
#[derive(Debug, Clone, Copy)]
pub struct D60;

/// The CIE D65 reference illuminant (noon daylight, the sRGB white point).
#[derive(Debug, Clone, Copy)]
pub struct D65;

/// Marker trait for the reference illuminants an XYZ value can be
/// expressed against.
pub trait Illuminant {

}

impl Illuminant for D50 {

}

impl Illuminant for D60 {

}

impl Illuminant for D65 {

}

/// A CIE 1931 XYZ tristimulus value at the white point `I`, normalized to
/// Y = 1.0 for the reference white.
#[derive(Debug)]
pub struct Cie1931<I: Illuminant> {
    /// The X stimulus, fixed point.
    pub x: i64,
    /// The Y stimulus (luminance), fixed point.
    pub y: i64,
    /// The Z stimulus, fixed point.
    pub z: i64,
    /// The compile-time illuminant marker; it carries no data.
    pub _illuminant: PhantomData<I>,
}

impl<I: Illuminant> Clone for Cie1931<I> {
    /// Clones the value channel for channel.
    fn clone(&self) -> (r: Self)
        ensures
            r.x == self.x,
            r.y == self.y,
            r.z == self.z,
    {
        Cie1931 { x: self.x, y: self.y, z: self.z, _illuminant: PhantomData }
    }
}

impl<I: Illuminant> Cie1931<I> {
    /// Builds an XYZ value from its three stimuli.
    pub fn new(x: i64, y: i64, z: i64) -> (r: Cie1931<I>)
        ensures
            r.x == x,
            r.y == y,
            r.z == z,
    {
        Cie1931 { x, y, z, _illuminant: PhantomData }
    }

    /// The X stimulus.
    pub fn x(&self) -> (r: i64)
        ensures
            r == self.x,
    {
        self.x
    }

    /// The Y stimulus.
    pub fn y(&self) -> (r: i64)
        ensures
            r == self.y,
    {
        self.y
    }

    /// The Z stimulus.
    pub fn z(&self) -> (r: i64)
        ensures
            r == self.z,
    {
        self.z
    }

    /// The luminance of the value: its Y channel.
    pub fn get_luminance(&self) -> (r: i64)
        ensures
            r == self.y,
    {
        self.y
    }

    /// Rescales all three stimuli by `luminance / Y` so the luminance
    /// becomes exactly `luminance`, whatever the sign of the current Y.
    /// Pure black (luminance exactly zero) cannot be rescaled: the value
    /// is then left unchanged, by policy, rather than dividing by zero.
    pub fn set_luminance(&mut self, luminance: i64)
        requires
            old(self).y != 0 ==> abs((old(self).x as int) * (luminance as int)) <= abs(
                old(self).y as int,
            ) * (i64::MAX as int),
            old(self).y != 0 ==> abs((old(self).y as int) * (luminance as int)) <= abs(
                old(self).y as int,
            ) * (i64::MAX as int),
            old(self).y != 0 ==> abs((old(self).z as int) * (luminance as int)) <= abs(
                old(self).y as int,
            ) * (i64::MAX as int),
        ensures
            old(self).y == 0 ==> *final(self) == *old(self),
            old(self).y != 0 ==> final(self).x == rdiv_signed(
                (old(self).x as int) * (luminance as int),
                old(self).y as int,
            ),
            old(self).y != 0 ==> final(self).y == luminance,
            old(self).y != 0 ==> final(self).z == rdiv_signed(
                (old(self).z as int) * (luminance as int),
                old(self).y as int,
            ),
    {
        if self.y == 0 {
            return ;
        }
        let oldy: i64 = self.y;
        self.x = crate::fixed::mul_rdiv_signed(self.x, luminance, oldy);
        self.z = crate::fixed::mul_rdiv_signed(self.z, luminance, oldy);
        self.y = crate::fixed::mul_rdiv_signed(self.y, luminance, oldy);
        proof {
            vstd::arithmetic::mul::lemma_mul_is_commutative(oldy as int, luminance as int);
            crate::fixed::lemma_rdiv_signed_exact(luminance as int, oldy as int);
        }
    }
}

// The Bradford-style chromatic adaptation matrices between the D65 and
// D50 reference whites, at full published precision: each coefficient is
// carried exactly as an integer over the matrix's decimal denominator.
pub const D65_TO_D50_DEN: i64 = 1_000_000_000_000_000;

pub const D65_TO_D50_00: i64 = 1_047_844_353_856_414;

pub const D65_TO_D50_01: i64 = 22_898_981_050_086;

pub const D65_TO_D50_02: i64 = -50_206_647_741_605;

pub const D65_TO_D50_10: i64 = 29_549_007_606_644;

pub const D65_TO_D50_11: i64 = 990_508_028_941_971;

pub const D65_TO_D50_12: i64 = -17_074_711_360_960;

pub const D65_TO_D50_20: i64 = -9_250_984_365_223;

pub const D65_TO_D50_21: i64 = 15_072_338_237_051;

pub const D65_TO_D50_22: i64 = 751_717_835_079_977;

pub const D50_TO_D65_DEN: i64 = 1_000_000_000_000_000_000;

pub const D50_TO_D65_00: i64 = 955_549_147_133_903_600;

pub const D50_TO_D65_01: i64 = -23_053_959_026_109_210;

pub const D50_TO_D65_02: i64 = 63_296_728_524_184_200;

pub const D50_TO_D65_10: i64 = -28_293_615_880_275_732;

pub const D50_TO_D65_11: i64 = 1_009_916_725_621_172_000;

pub const D50_TO_D65_12: i64 = 21_049_798_533_869_513;

pub const D50_TO_D65_20: i64 = 12_326_727_844_429_515;

pub const D50_TO_D65_21: i64 = -20_533_074_478_247_797;

pub const D50_TO_D65_22: i64 = 1_330_643_282_204_687_600;

/// The chromatic adaptation of a normalized XYZ value from the D65 white
/// point to D50: one fixed 3x3 matrix, rounded per channel.
pub open spec fn d65_to_d50_spec(x: int, y: int, z: int) -> (int, int, int) {
    (
        dot3_spec(
            D65_TO_D50_00 as int,
            D65_TO_D50_01 as int,
            D65_TO_D50_02 as int,
            x,
            y,
            z,
            D65_TO_D50_DEN as int,
        ),
        dot3_spec(
            D65_TO_D50_10 as int,
            D65_TO_D50_11 as int,
            D65_TO_D50_12 as int,
            x,
            y,
            z,
            D65_TO_D50_DEN as int,
        ),
        dot3_spec(
            D65_TO_D50_20 as int,
            D65_TO_D50_21 as int,
            D65_TO_D50_22 as int,
            x,
            y,
            z,
            D65_TO_D50_DEN as int,
        ),
    )
}

/// The chromatic adaptation of a normalized XYZ value from the D50 white
/// point to D65: the numerical inverse of `d65_to_d50_spec`.
pub open spec fn d50_to_d65_spec(x: int, y: int, z: int) -> (int, int, int) {
    (
        dot3_spec(
            D50_TO_D65_00 as int,
            D50_TO_D65_01 as int,
            D50_TO_D65_02 as int,
            x,
            y,
            z,
            D50_TO_D65_DEN as int,
        ),
        dot3_spec(
            D50_TO_D65_10 as int,
            D50_TO_D65_11 as int,
            D50_TO_D65_12 as int,
            x,
            y,
            z,
            D50_TO_D65_DEN as int,
        ),
        dot3_spec(
            D50_TO_D65_20 as int,
            D50_TO_D65_21 as int,
            D50_TO_D65_22 as int,
            x,
            y,
            z,
            D50_TO_D65_DEN as int,
        ),
    )
}

impl Cie1931<D65> {
    /// Adapts this D65-referenced value to the D50 white point.
    pub fn to_d50(&self) -> (r: Cie1931<D50>)
        requires
            fx3_in_range(self.x as int, self.y as int, self.z as int),
        ensures
            (r.x as int, r.y as int, r.z as int) == d65_to_d50_spec(
                self.x as int,
                self.y as int,
                self.z as int,
            ),
    {
        let x: i64 = crate::fixed::dot3(
            D65_TO_D50_00,
            D65_TO_D50_01,
            D65_TO_D50_02,
            self.x,
            self.y,
            self.z,
            D65_TO_D50_DEN,
        );
        let y: i64 = crate::fixed::dot3(
            D65_TO_D50_10,
            D65_TO_D50_11,
            D65_TO_D50_12,
            self.x,
            self.y,
            self.z,
            D65_TO_D50_DEN,
        );
        let z: i64 = crate::fixed::dot3(
            D65_TO_D50_20,
            D65_TO_D50_21,
            D65_TO_D50_22,
            self.x,
            self.y,
            self.z,
            D65_TO_D50_DEN,
        );
        Cie1931::<D50>::new(x, y, z)
    }
}

impl Cie1931<D50> {
    /// Adapts this D50-referenced value to the D65 white point.
    pub fn to_d65(&self) -> (r: Cie1931<D65>)
        requires
            fx3_in_range(self.x as int, self.y as int, self.z as int),
        ensures
            (r.x as int, r.y as int, r.z as int) == d50_to_d65_spec(
                self.x as int,
                self.y as int,
                self.z as int,
            ),
    {
        let x: i64 = crate::fixed::dot3(
            D50_TO_D65_00,
            D50_TO_D65_01,
            D50_TO_D65_02,
            self.x,
            self.y,
            self.z,
            D50_TO_D65_DEN,
        );
        let y: i64 = crate::fixed::dot3(
            D50_TO_D65_10,
            D50_TO_D65_11,
            D50_TO_D65_12,
            self.x,
            self.y,
            self.z,
            D50_TO_D65_DEN,
        );
        let z: i64 = crate::fixed::dot3(
            D50_TO_D65_20,
            D50_TO_D65_21,
            D50_TO_D65_22,
            self.x,
            self.y,
            self.z,
            D50_TO_D65_DEN,
        );
        Cie1931::<D65>::new(x, y, z)
    }
}

/// A bare CIE 1931 chromaticity pair (x, y), fixed point.
#[derive(Debug, Clone, Copy)]
pub struct Cie1931xy {
    /// The x chromaticity coordinate.
    pub x: i64,
    /// The y chromaticity coordinate.
    pub y: i64,
}

impl Cie1931xy {
    /// Builds a chromaticity pair from its two coordinates.
    pub fn new(x: i64, y: i64) -> (r: Cie1931xy)
        ensures
            r.x == x,
            r.y == y,
    {
        Cie1931xy { x, y }
    }
}

/// A CIE 1931 xyY value: the (x, y) chromaticity plus the luminance Y,
/// fixed point.  Converting to xyY keeps luminance; converting back
/// re-imposes it.
#[derive(Debug, Clone, Copy)]
pub struct Cie1931xyY {
    /// The x chromaticity coordinate.
    pub x: i64,
    /// The y chromaticity coordinate.
    pub y: i64,
    /// The luminance Y.
    pub big_y: i64,
}

/// The divisor actually used when projecting to or from chromaticities:
/// the value itself when positive, else the smallest positive fixed-point
/// value.  Substituting a tiny denominator for a degenerate one is a
/// deliberate numerical-robustness guard, not an exact identity; it plays
/// the role of the small epsilon of the real-valued formulas, at this
/// representation's resolution.
pub open spec fn xyy_div(y: int) -> int {
    if y >= 1 {
        y
    } else {
        1
    }
}

/// The xyY projection of an XYZ value: `x = X/(X+Y+Z)`, `y = Y/(X+Y+Z)`,
/// keeping Y, with the divisor guarded by `xyy_div` when the stimulus sum
/// is not positive.
pub open spec fn xyz_to_xyy_spec(x: int, y: int, z: int) -> (int, int, int) {
    let t = xyy_div(x + y + z);
    (rdiv(x * (FX_ONE as int), t), rdiv(y * (FX_ONE as int), t), y)
}

/// The inverse projection, re-imposing the carried luminance:
/// `X = x*Y/y`, `Z = (1-x-y)*Y/y`, with the divisor guarded by `xyy_div`.
pub open spec fn xyy_to_xyz_spec(x: int, y: int, big_y: int) -> (int, int, int) {
    let yd = xyy_div(y);
    (rdiv(x * big_y, yd), big_y, rdiv(((FX_ONE as int) - x - y) * big_y, yd))
}

impl Cie1931xyY {
    /// Builds an xyY value from its chromaticity pair and luminance.
    pub fn new(x: i64, y: i64, big_y: i64) -> (r: Cie1931xyY)
        ensures
            r.x == x,
            r.y == y,
            r.big_y == big_y,
    {
        Cie1931xyY { x, y, big_y }
    }

    /// The x chromaticity coordinate.
    pub fn x(&self) -> (r: i64)
        ensures
            r == self.x,
    {
        self.x
    }

    /// The y chromaticity coordinate.
    pub fn y(&self) -> (r: i64)
        ensures
            r == self.y,
    {
        self.y
    }

    /// The third stored component: the luminance Y.
    pub fn z(&self) -> (r: i64)
        ensures
            r == self.big_y,
    {
        self.big_y
    }

    /// Converts back to XYZ at D65, re-imposing the carried luminance.
    pub fn to_xyz(&self) -> (r: Cie1931<D65>)
        requires
            abs((self.x as int) * (self.big_y as int)) <= xyy_div(self.y as int) * (
            i64::MAX as int),
            abs(((FX_ONE as int) - self.x - self.y) * (self.big_y as int)) <= xyy_div(
                self.y as int,
            ) * (i64::MAX as int),
            -FX_MAX_ABS <= self.x <= FX_MAX_ABS,
            -FX_MAX_ABS <= self.y <= FX_MAX_ABS,
        ensures
            (r.x as int, r.y as int, r.z as int) == xyy_to_xyz_spec(
                self.x as int,
                self.y as int,
                self.big_y as int,
            ),
    {
        let yd: i64 = if self.y >= 1 {
            self.y
        } else {
            1
        };
        let x: i64 = crate::fixed::mul_rdiv(self.x, self.big_y, yd);
        let z: i64 = crate::fixed::mul_rdiv(FX_ONE - self.x - self.y, self.big_y, yd);
        Cie1931::<D65>::new(x, self.big_y, z)
    }
}

impl Cie1931<D65> {
    /// Projects this XYZ value to xyY, keeping the luminance.  A stimulus
    /// sum that is not positive is replaced by the smallest positive
    /// fixed-point value, the same epsilon guard the inverse direction
    /// applies to the y chromaticity.
    pub fn to_xyy(&self) -> (r: Cie1931xyY)
        requires
            fx3_in_range(self.x as int, self.y as int, self.z as int),
            abs((self.x as int) * (FX_ONE as int)) <= xyy_div(self.x + self.y + self.z) * (
            i64::MAX as int),
            abs((self.y as int) * (FX_ONE as int)) <= xyy_div(self.x + self.y + self.z) * (
            i64::MAX as int),
        ensures
            (r.x as int, r.y as int, r.big_y as int) == xyz_to_xyy_spec(
                self.x as int,
                self.y as int,
                self.z as int,
            ),
    {
        let t: i64 = self.x + self.y + self.z;
        let td: i64 = if t >= 1 {
            t
        } else {
            1
        };
        let cx: i64 = crate::fixed::mul_rdiv(self.x, FX_ONE, td);
        let cy: i64 = crate::fixed::mul_rdiv(self.y, FX_ONE, td);
        Cie1931xyY::new(cx, cy, self.y)
    }
}


/// Projecting an XYZ value to xyY and converting back, with the carried
/// luminance re-imposed, recovers the value within 10^-5 per channel, and
/// the luminance exactly.  The law asks for a stimulus with nonnegative
/// channels of at most 2.0 and a luminance of at least 0.1: below that
/// the y chromaticity denominator loses too much precision at this
/// resolution for the bound to hold.
pub proof fn lemma_xyy_round_trip(x: int, y: int, z: int)
    requires
        0 <= x <= 20_000_000,
        1_000_000 <= y <= 20_000_000,
        0 <= z <= 20_000_000,
    ensures
        ({
            let (cx, cy, yy) = xyz_to_xyy_spec(x, y, z);
            let (x2, y2, z2) = xyy_to_xyz_spec(cx, cy, yy);
            abs(x2 - x) <= 100 && y2 == y && abs(z2 - z) <= 100
        }),
{
    let u = FX_ONE as int;
    let t = x + y + z;
    assert(xyy_div(t) == t);
    let cx = rdiv(x * u, t);
    let cy = rdiv(y * u, t);
    crate::fixed::lemma_rdiv_error(x * u, t);
    crate::fixed::lemma_rdiv_error(y * u, t);
    let a = x * u - cx * t;
    let b = y * u - cy * t;
    // the y chromaticity is well clear of zero: cy * t == y*u - b >= 10^13 - t
    assert(y * u >= 10_000_000_000_000) by (nonlinear_arith)
        requires
            y >= 1_000_000,
            u == 10_000_000,
    ;
    assert(cy >= 166_000) by (nonlinear_arith)
        requires
            cy * t >= 10_000_000_000_000 - t,
            1 <= t <= 60_000_000,
    ;
    // the xy -> XYZ direction divides by cy
    let x2 = rdiv(cx * y, cy);
    let z2 = rdiv((u - cx - cy) * y, cy);
    crate::fixed::lemma_rdiv_error(cx * y, cy);
    crate::fixed::lemma_rdiv_error((u - cx - cy) * y, cy);
    let c = cx * y - x2 * cy;
    let c2 = (u - cx - cy) * y - z2 * cy;
    // exact decomposition of the x-channel error, built up in small steps
    assert((cx * t) * y == x * y * u - a * y) by (nonlinear_arith)
        requires
            a == x * u - cx * t,
    ;
    assert((cy * t) * x == x * y * u - x * b) by (nonlinear_arith)
        requires
            b == y * u - cy * t,
    ;
    assert((x2 * cy) * t == (cx * y) * t - c * t) by (nonlinear_arith)
        requires
            c == cx * y - x2 * cy,
    ;
    assert((cx * y) * t == (cx * t) * y) by (nonlinear_arith);
    assert((x2 - x) * (cy * t) == (x2 * cy) * t - (cy * t) * x) by (nonlinear_arith);
    assert((x2 - x) * (cy * t) == -(a * y) - (c * t) + x * b);
    assert(-(t * (x + y + cy)) <= 2 * ((x2 - x) * (cy * t)) <= t * (x + y + cy)) by (
    nonlinear_arith)
        requires
            (x2 - x) * (cy * t) == -(a * y) - (c * t) + x * b,
            -t <= 2 * a <= t,
            -t <= 2 * b <= t,
            -cy <= 2 * c <= cy,
            0 <= x,
            0 <= y,
            1 <= t,
            1 <= cy,
    ;
    assert(x + y <= 199 * cy) by (nonlinear_arith)
        requires
            cy * t >= y * u - t,
            u == 10_000_000,
            t == x + y + z,
            0 <= x <= 20_000_000,
            1_000_000 <= y <= 20_000_000,
            0 <= z <= 20_000_000,
            1 <= cy,
    ;
    assert(-100 <= x2 - x <= 100) by (nonlinear_arith)
        requires
            -(t * (x + y + cy)) <= 2 * ((x2 - x) * (cy * t)) <= t * (x + y + cy),
            x + y <= 199 * cy,
            1 <= t,
            1 <= cy,
    ;
    // exact decomposition of the z-channel error: the third chromaticity
    // carries the combined rounding of the first two
    let g = u - cx - cy;
    assert(g * t == z * u + a + b) by (nonlinear_arith)
        requires
            a == x * u - cx * t,
            b == y * u - cy * t,
            t == x + y + z,
            g == u - cx - cy,
    ;
    assert((z2 * cy) * t == (g * y) * t - c2 * t) by (nonlinear_arith)
        requires
            c2 == g * y - z2 * cy,
    ;
    assert((g * y) * t == (g * t) * y) by (nonlinear_arith);
    assert((z * u + a + b) * y == z * y * u + a * y + b * y) by (nonlinear_arith);
    assert((cy * t) * z == z * y * u - z * b) by (nonlinear_arith)
        requires
            b == y * u - cy * t,
    ;
    assert((z2 - z) * (cy * t) == (z2 * cy) * t - (cy * t) * z) by (nonlinear_arith);
    assert((g * t) * y == (z * u + a + b) * y);
    assert((z2 - z) * (cy * t) == (a * y) + (b * y) - (c2 * t) + z * b);
    assert(-(t * (2 * y + z + cy)) <= 2 * ((z2 - z) * (cy * t)) <= t * (2 * y + z + cy)) by (
    nonlinear_arith)
        requires
            (z2 - z) * (cy * t) == (a * y) + (b * y) - (c2 * t) + z * b,
            -t <= 2 * a <= t,
            -t <= 2 * b <= t,
            -cy <= 2 * c2 <= cy,
            0 <= y,
            0 <= z,
            1 <= t,
            1 <= cy,
    ;
    assert(2 * y + z <= 199 * cy) by (nonlinear_arith)
        requires
            cy * t >= y * u - t,
            u == 10_000_000,
            t == x + y + z,
            0 <= x <= 20_000_000,
            1_000_000 <= y <= 20_000_000,
            0 <= z <= 20_000_000,
            1 <= cy,
    ;
    assert(-100 <= z2 - z <= 100) by (nonlinear_arith)
        requires
            -(t * (2 * y + z + cy)) <= 2 * ((z2 - z) * (cy * t)) <= t * (2 * y + z + cy),
            2 * y + z <= 199 * cy,
            1 <= t,
            1 <= cy,
    ;
}

/// Adapting an XYZ value from D65 to D50 and back recovers it within
/// 10^-5 per channel: the two Bradford-style matrices are numerical
/// inverses at this precision.
pub proof fn lemma_chromatic_adaptation_round_trip(x: int, y: int, z: int)
    requires
        abs(x) <= 1_000_000_000,
        abs(y) <= 1_000_000_000,
        abs(z) <= 1_000_000_000,
    ensures
        ({
            let (a1, a2, a3) = d65_to_d50_spec(x, y, z);
            let (r1, r2, r3) = d50_to_d65_spec(a1, a2, a3);
            abs(r1 - x) <= 100 && abs(r2 - y) <= 100 && abs(r3 - z) <= 100
        }),
{
    let n1 = 1_047_844_353_856_414 * x + 22_898_981_050_086 * y + -50_206_647_741_605 * z;
    let n2 = 29_549_007_606_644 * x + 990_508_028_941_971 * y + -17_074_711_360_960 * z;
    let n3 = -9_250_984_365_223 * x + 15_072_338_237_051 * y + 751_717_835_079_977 * z;
    assert(955_549_147_133_903_600 * n1 + -23_053_959_026_109_210 * n2 + 63_296_728_524_184_200 * n3
        - 1_000_000_000_000_000_000_000_000_000_000_000 * x == -63_477_624_673_977_440 * x + 858_105_285_850_890 * y + 2_650_170_590_927_000 * z);
    crate::fixed::lemma_mat3_round_trip_channel(
        955_549_147_133_903_600,
        -23_053_959_026_109_210,
        63_296_728_524_184_200,
        n1,
        n2,
        n3,
        1_000_000_000_000_000,
        1_000_000_000_000_000_000,
        x,
        66_985_900_550_755_330_000_000_000,
        100,
    );
    assert(-28_293_615_880_275_732 * n1 + 1_009_916_725_621_172_000 * n2 + 21_049_798_533_869_513 * n3
        - 1_000_000_000_000_000_000_000_000_000_000_000 * y == -6_628_483_807_123_447 * x + -164_047_807_876_374_789 * y + 504_779_880_151_061 * z);
    crate::fixed::lemma_mat3_round_trip_channel(
        -28_293_615_880_275_732,
        1_009_916_725_621_172_000,
        21_049_798_533_869_513,
        n1,
        n2,
        n3,
        1_000_000_000_000_000,
        1_000_000_000_000_000_000,
        y,
        171_181_071_563_649_297_000_000_000,
        100,
    );
    assert(12_326_727_844_429_515 * n1 + -20_533_074_478_247_797 * n2 + 1_330_643_282_204_687_600 * n3
        - 1_000_000_000_000_000_000_000_000_000_000_000 * z == -1_004_872_701_238_858 * x + 1_290_988_640_368_003 * y + -83_790_994_063_481_255 * z);
    crate::fixed::lemma_mat3_round_trip_channel(
        12_326_727_844_429_515,
        -20_533_074_478_247_797,
        1_330_643_282_204_687_600,
        n1,
        n2,
        n3,
        1_000_000_000_000_000,
        1_000_000_000_000_000_000,
        z,
        86_086_855_405_088_116_000_000_000,
        100,
    );
}

} // verus!
