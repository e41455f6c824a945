//! The Academy Color Encoding System, ACES 2065-1: the AP0-primaries
//! linear encoding, its exact matrices to and from CIE XYZ at the D60
//! white point, and the AP0 and AP1 gamut descriptors.
//!
//! ACES is photometrically linear: a perfect white diffuser is (1, 1, 1)
//! and 18% grey is (0.18, 0.18, 0.18).  Values are scene-referred and may
//! lie outside [0, 1].

use vstd::math::abs;
use vstd::prelude::*;

use crate::chromaticities::Chromaticity;
use crate::cie1931::{Cie1931, Cie1931xy, D60};
use crate::fixed::{dot3_spec, fx3_in_range};

verus! {

/// The ACES AP0 primaries, which cover the entire CIE 1964
/// standard-observer spectral locus, with the D60 white point.
pub fn aces_ap0_chromaticities() -> (c: Chromaticity)
    ensures
        c.red == (Cie1931xy { x: 7_347_000, y: 2_653_000 }),
        c.green == (Cie1931xy { x: 0, y: 10_000_000 }),
        c.blue == (Cie1931xy { x: 1_000, y: -770_000i64 }),
        c.white == (Cie1931xy { x: 3_216_800, y: 3_376_700 }),
{
    Chromaticity {
        red: Cie1931xy::new(7_347_000, 2_653_000),
        green: Cie1931xy::new(0, 10_000_000),
        blue: Cie1931xy::new(1_000, -770_000),
        white: Cie1931xy::new(3_216_800, 3_376_700),
    }
}

/// The ACES AP1 primaries: contained within the spectral locus but still
/// a wide gamut, bent toward display-referred spaces; the same D60 white.
pub fn aces_ap1_chromaticities() -> (c: Chromaticity)
    ensures
        c.red == (Cie1931xy { x: 7_130_000, y: 2_930_000 }),
        c.green == (Cie1931xy { x: 1_650_000, y: 8_300_000 }),
        c.blue == (Cie1931xy { x: 1_280_000, y: 440_000 }),
        c.white == (Cie1931xy { x: 3_216_800, y: 3_376_700 }),
{
    Chromaticity {
        red: Cie1931xy::new(7_130_000, 2_930_000),
        green: Cie1931xy::new(1_650_000, 8_300_000),
        blue: Cie1931xy::new(1_280_000, 440_000),
        white: Cie1931xy::new(3_216_800, 3_376_700),
    }
}

// The published ACES AP0 <-> XYZ(D60) matrices, each coefficient an exact
// integer over 10^10.
pub const XYZ_TO_ACES_DEN: i64 = 10_000_000_000;

pub const XYZ_TO_ACES_00: i64 = 10_498_110_175;

pub const XYZ_TO_ACES_01: i64 = 0;

pub const XYZ_TO_ACES_02: i64 = -974_845;

pub const XYZ_TO_ACES_10: i64 = -4_959_030_231;

pub const XYZ_TO_ACES_11: i64 = 13_733_130_458;

pub const XYZ_TO_ACES_12: i64 = 982_400_361;

pub const XYZ_TO_ACES_20: i64 = 0;

pub const XYZ_TO_ACES_21: i64 = 0;

pub const XYZ_TO_ACES_22: i64 = 9_912_520_182;

pub const ACES_TO_XYZ_00: i64 = 9_525_523_959;

pub const ACES_TO_XYZ_01: i64 = 0;

pub const ACES_TO_XYZ_02: i64 = 936_786;

pub const ACES_TO_XYZ_10: i64 = 3_439_664_498;

pub const ACES_TO_XYZ_11: i64 = 7_281_660_966;

pub const ACES_TO_XYZ_12: i64 = -721_325_464;

pub const ACES_TO_XYZ_20: i64 = 0;

pub const ACES_TO_XYZ_21: i64 = 0;

pub const ACES_TO_XYZ_22: i64 = 10_088_251_844;

/// The ACES AP0 channels of an XYZ value at D60.
pub open spec fn xyz_to_aces_spec(x: int, y: int, z: int) -> (int, int, int) {
    (
        dot3_spec(
            XYZ_TO_ACES_00 as int,
            XYZ_TO_ACES_01 as int,
            XYZ_TO_ACES_02 as int,
            x,
            y,
            z,
            XYZ_TO_ACES_DEN as int,
        ),
        dot3_spec(
            XYZ_TO_ACES_10 as int,
            XYZ_TO_ACES_11 as int,
            XYZ_TO_ACES_12 as int,
            x,
            y,
            z,
            XYZ_TO_ACES_DEN as int,
        ),
        dot3_spec(
            XYZ_TO_ACES_20 as int,
            XYZ_TO_ACES_21 as int,
            XYZ_TO_ACES_22 as int,
            x,
            y,
            z,
            XYZ_TO_ACES_DEN as int,
        ),
    )
}

/// The XYZ stimuli at D60 of an ACES AP0 color.
pub open spec fn aces_to_xyz_spec(r: int, g: int, b: int) -> (int, int, int) {
    (
        dot3_spec(
            ACES_TO_XYZ_00 as int,
            ACES_TO_XYZ_01 as int,
            ACES_TO_XYZ_02 as int,
            r,
            g,
            b,
            XYZ_TO_ACES_DEN as int,
        ),
        dot3_spec(
            ACES_TO_XYZ_10 as int,
            ACES_TO_XYZ_11 as int,
            ACES_TO_XYZ_12 as int,
            r,
            g,
            b,
            XYZ_TO_ACES_DEN as int,
        ),
        dot3_spec(
            ACES_TO_XYZ_20 as int,
            ACES_TO_XYZ_21 as int,
            ACES_TO_XYZ_22 as int,
            r,
            g,
            b,
            XYZ_TO_ACES_DEN as int,
        ),
    )
}

/// An ACES 2065-1 color: linear AP0-primaries channels at the D60 white
/// point, fixed point, scene-referred.
#[derive(Debug, Clone, Copy)]
pub struct Aces {
    /// The red channel.
    pub r: i64,
    /// The green channel.
    pub g: i64,
    /// The blue channel.
    pub b: i64,
}

impl Aces {
    /// Builds an ACES color from its three channels.
    pub fn new(r: i64, g: i64, b: i64) -> (c: Aces)
        ensures
            c.r == r,
            c.g == g,
            c.b == b,
    {
        Aces { r, g, b }
    }

    /// The red channel.
    pub fn r(&self) -> (v: i64)
        ensures
            v == self.r,
    {
        self.r
    }

    /// The green channel.
    pub fn g(&self) -> (v: i64)
        ensures
            v == self.g,
    {
        self.g
    }

    /// The blue channel.
    pub fn b(&self) -> (v: i64)
        ensures
            v == self.b,
    {
        self.b
    }

    /// Converts this ACES color to XYZ at D60.
    pub fn to_cie1931(&self) -> (c: Cie1931<D60>)
        requires
            fx3_in_range(self.r as int, self.g as int, self.b as int),
        ensures
            (c.x as int, c.y as int, c.z as int) == aces_to_xyz_spec(
                self.r as int,
                self.g as int,
                self.b as int,
            ),
    {
        let x: i64 = crate::fixed::dot3(
            ACES_TO_XYZ_00,
            ACES_TO_XYZ_01,
            ACES_TO_XYZ_02,
            self.r,
            self.g,
            self.b,
            XYZ_TO_ACES_DEN,
        );
        let y: i64 = crate::fixed::dot3(
            ACES_TO_XYZ_10,
            ACES_TO_XYZ_11,
            ACES_TO_XYZ_12,
            self.r,
            self.g,
            self.b,
            XYZ_TO_ACES_DEN,
        );
        let z: i64 = crate::fixed::dot3(
            ACES_TO_XYZ_20,
            ACES_TO_XYZ_21,
            ACES_TO_XYZ_22,
            self.r,
            self.g,
            self.b,
            XYZ_TO_ACES_DEN,
        );
        Cie1931::<D60>::new(x, y, z)
    }
}

impl Cie1931<D60> {
    /// Converts this XYZ value at D60 to ACES AP0.
    pub fn to_aces(&self) -> (c: Aces)
        requires
            fx3_in_range(self.x as int, self.y as int, self.z as int),
        ensures
            (c.r as int, c.g as int, c.b as int) == xyz_to_aces_spec(
                self.x as int,
                self.y as int,
                self.z as int,
            ),
    {
        Aces {
            r: crate::fixed::dot3(
                XYZ_TO_ACES_00,
                XYZ_TO_ACES_01,
                XYZ_TO_ACES_02,
                self.x,
                self.y,
                self.z,
                XYZ_TO_ACES_DEN,
            ),
            g: crate::fixed::dot3(
                XYZ_TO_ACES_10,
                XYZ_TO_ACES_11,
                XYZ_TO_ACES_12,
                self.x,
                self.y,
                self.z,
                XYZ_TO_ACES_DEN,
            ),
            b: crate::fixed::dot3(
                XYZ_TO_ACES_20,
                XYZ_TO_ACES_21,
                XYZ_TO_ACES_22,
                self.x,
                self.y,
                self.z,
                XYZ_TO_ACES_DEN,
            ),
        }
    }
}


/// Converting an XYZ value at D60 to ACES AP0 and back recovers it within
/// 10^-5 per channel: the published matrix pair composes to the identity
/// at this precision.
pub proof fn lemma_aces_round_trip(x: int, y: int, z: int)
    requires
        abs(x) <= 1_000_000_000,
        abs(y) <= 1_000_000_000,
        abs(z) <= 1_000_000_000,
    ensures
        ({
            let (a1, a2, a3) = xyz_to_aces_spec(x, y, z);
            let (r1, r2, r3) = aces_to_xyz_spec(a1, a2, a3);
            abs(r1 - x) <= 100 && abs(r2 - y) <= 100 && abs(r3 - z) <= 100
        }),
{
    let n1 = 10_498_110_175 * x + 0 * y + -974_845 * z;
    let n2 = -4_959_030_231 * x + 13_733_130_458 * y + 982_400_361 * z;
    let n3 = 0 * x + 0 * y + 9_912_520_182 * z;
    assert(9_525_523_959 * n1 + 0 * n2 + 936_786 * n3
        - 100_000_000_000_000_000_000 * x == -3_815_817_175 * x + 0 * y + 727_403_697 * z);
    crate::fixed::lemma_mat3_round_trip_channel(
        9_525_523_959,
        0,
        936_786,
        n1,
        n2,
        n3,
        10_000_000_000,
        10_000_000_000,
        x,
        4_543_220_872_000_000_000,
        100,
    );
    assert(3_439_664_498 * n1 + 7_281_660_966 * n2 + -721_325_464 * n3
        - 100_000_000_000_000_000_000 * y == 2_753_404_004 * x + -2_995_697_572 * y + 2_249_941_468 * z);
    crate::fixed::lemma_mat3_round_trip_channel(
        3_439_664_498,
        7_281_660_966,
        -721_325_464,
        n1,
        n2,
        n3,
        10_000_000_000,
        10_000_000_000,
        y,
        7_999_043_044_000_000_000,
        100,
    );
    assert(0 * n1 + 0 * n2 + 10_088_251_844 * n3
        - 100_000_000_000_000_000_000 * z == 0 * x + 0 * y + 4_748_715_608 * z);
    crate::fixed::lemma_mat3_round_trip_channel(
        0,
        0,
        10_088_251_844,
        n1,
        n2,
        n3,
        10_000_000_000,
        10_000_000_000,
        z,
        4_748_715_608_000_000_000,
        100,
    );
}

} // verus!
