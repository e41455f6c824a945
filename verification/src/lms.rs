//! The LMS cone-response space, through the CIECAM02 transform: the
//! colorspace to use when converting white points.

use vstd::math::abs;
use vstd::prelude::*;

use crate::cie1931::{Cie1931, D65};
use crate::fixed::{dot3_spec, fx3_in_range};

verus! {

// The CIECAM02 XYZ(D65) <-> LMS matrices, each coefficient an exact
// integer over 10^10.
pub const XYZ_TO_LMS_DEN: i64 = 10_000_000_000;

pub const XYZ_TO_LMS_00: i64 = 7_328_000_000;

pub const XYZ_TO_LMS_01: i64 = 4_296_000_000;

pub const XYZ_TO_LMS_02: i64 = -1_624_000_000;

pub const XYZ_TO_LMS_10: i64 = -7_036_000_000;

pub const XYZ_TO_LMS_11: i64 = 16_975_000_000;

pub const XYZ_TO_LMS_12: i64 = 61_000_000;

pub const XYZ_TO_LMS_20: i64 = 30_000_000;

pub const XYZ_TO_LMS_21: i64 = 136_000_000;

pub const XYZ_TO_LMS_22: i64 = 9_834_000_000;

pub const LMS_TO_XYZ_00: i64 = 10_961_238_000;

pub const LMS_TO_XYZ_01: i64 = -2_788_690_000;

pub const LMS_TO_XYZ_02: i64 = 1_827_451_900;

pub const LMS_TO_XYZ_10: i64 = 4_543_690_400;

pub const LMS_TO_XYZ_11: i64 = 4_735_331_800;

pub const LMS_TO_XYZ_12: i64 = 720_978_100;

pub const LMS_TO_XYZ_20: i64 = -96_276_095;

pub const LMS_TO_XYZ_21: i64 = -56_980_313;

pub const LMS_TO_XYZ_22: i64 = 10_153_257_000;

/// The LMS cone responses of an XYZ value at D65 (CIECAM02).
pub open spec fn xyz_to_lms_spec(x: int, y: int, z: int) -> (int, int, int) {
    (
        dot3_spec(
            XYZ_TO_LMS_00 as int,
            XYZ_TO_LMS_01 as int,
            XYZ_TO_LMS_02 as int,
            x,
            y,
            z,
            XYZ_TO_LMS_DEN as int,
        ),
        dot3_spec(
            XYZ_TO_LMS_10 as int,
            XYZ_TO_LMS_11 as int,
            XYZ_TO_LMS_12 as int,
            x,
            y,
            z,
            XYZ_TO_LMS_DEN as int,
        ),
        dot3_spec(
            XYZ_TO_LMS_20 as int,
            XYZ_TO_LMS_21 as int,
            XYZ_TO_LMS_22 as int,
            x,
            y,
            z,
            XYZ_TO_LMS_DEN as int,
        ),
    )
}

/// The XYZ stimuli at D65 of an LMS value (inverse CIECAM02).
pub open spec fn lms_to_xyz_spec(l: int, m: int, s: int) -> (int, int, int) {
    (
        dot3_spec(
            LMS_TO_XYZ_00 as int,
            LMS_TO_XYZ_01 as int,
            LMS_TO_XYZ_02 as int,
            l,
            m,
            s,
            XYZ_TO_LMS_DEN as int,
        ),
        dot3_spec(
            LMS_TO_XYZ_10 as int,
            LMS_TO_XYZ_11 as int,
            LMS_TO_XYZ_12 as int,
            l,
            m,
            s,
            XYZ_TO_LMS_DEN as int,
        ),
        dot3_spec(
            LMS_TO_XYZ_20 as int,
            LMS_TO_XYZ_21 as int,
            LMS_TO_XYZ_22 as int,
            l,
            m,
            s,
            XYZ_TO_LMS_DEN as int,
        ),
    )
}

/// An LMS cone-space value, fixed point.
#[derive(Debug, Clone, Copy)]
pub struct Lms {
    /// The long-wavelength cone response.
    pub x: i64,
    /// The medium-wavelength cone response.
    pub y: i64,
    /// The short-wavelength cone response.
    pub z: i64,
}

impl Lms {
    /// Builds an LMS value from its three responses.
    pub fn new(x: i64, y: i64, z: i64) -> (c: Lms)
        ensures
            c.x == x,
            c.y == y,
            c.z == z,
    {
        Lms { x, y, z }
    }

    /// The long-wavelength response.
    pub fn x(&self) -> (v: i64)
        ensures
            v == self.x,
    {
        self.x
    }

    /// The medium-wavelength response.
    pub fn y(&self) -> (v: i64)
        ensures
            v == self.y,
    {
        self.y
    }

    /// The short-wavelength response.
    pub fn z(&self) -> (v: i64)
        ensures
            v == self.z,
    {
        self.z
    }

    /// Converts this LMS value to XYZ at D65.
    pub fn to_cie1931(&self) -> (c: Cie1931<D65>)
        requires
            fx3_in_range(self.x as int, self.y as int, self.z as int),
        ensures
            (c.x as int, c.y as int, c.z as int) == lms_to_xyz_spec(
                self.x as int,
                self.y as int,
                self.z as int,
            ),
    {
        let x: i64 = crate::fixed::dot3(
            LMS_TO_XYZ_00,
            LMS_TO_XYZ_01,
            LMS_TO_XYZ_02,
            self.x,
            self.y,
            self.z,
            XYZ_TO_LMS_DEN,
        );
        let y: i64 = crate::fixed::dot3(
            LMS_TO_XYZ_10,
            LMS_TO_XYZ_11,
            LMS_TO_XYZ_12,
            self.x,
            self.y,
            self.z,
            XYZ_TO_LMS_DEN,
        );
        let z: i64 = crate::fixed::dot3(
            LMS_TO_XYZ_20,
            LMS_TO_XYZ_21,
            LMS_TO_XYZ_22,
            self.x,
            self.y,
            self.z,
            XYZ_TO_LMS_DEN,
        );
        Cie1931::<D65>::new(x, y, z)
    }
}

impl Cie1931<D65> {
    /// Converts this XYZ value to LMS cone space.
    pub fn to_lms(&self) -> (c: Lms)
        requires
            fx3_in_range(self.x as int, self.y as int, self.z as int),
        ensures
            (c.x as int, c.y as int, c.z as int) == xyz_to_lms_spec(
                self.x as int,
                self.y as int,
                self.z as int,
            ),
    {
        Lms {
            x: crate::fixed::dot3(
                XYZ_TO_LMS_00,
                XYZ_TO_LMS_01,
                XYZ_TO_LMS_02,
                self.x,
                self.y,
                self.z,
                XYZ_TO_LMS_DEN,
            ),
            y: crate::fixed::dot3(
                XYZ_TO_LMS_10,
                XYZ_TO_LMS_11,
                XYZ_TO_LMS_12,
                self.x,
                self.y,
                self.z,
                XYZ_TO_LMS_DEN,
            ),
            z: crate::fixed::dot3(
                XYZ_TO_LMS_20,
                XYZ_TO_LMS_21,
                XYZ_TO_LMS_22,
                self.x,
                self.y,
                self.z,
                XYZ_TO_LMS_DEN,
            ),
        }
    }
}


/// Converting an XYZ value at D65 to LMS cone space and back recovers it
/// within 10^-5 per channel: the CIECAM02 matrix pair composes to the
/// identity at this precision.
pub proof fn lemma_lms_round_trip(x: int, y: int, z: int)
    requires
        abs(x) <= 1_000_000_000,
        abs(y) <= 1_000_000_000,
        abs(z) <= 1_000_000_000,
    ensures
        ({
            let (a1, a2, a3) = xyz_to_lms_spec(x, y, z);
            let (r1, r2, r3) = lms_to_xyz_spec(a1, a2, a3);
            abs(r1 - x) <= 100 && abs(r2 - y) <= 100 && abs(r3 - z) <= 100
        }),
{
    let n1 = 7_328_000_000 * x + 4_296_000_000 * y + -1_624_000_000 * z;
    let n2 = -7_036_000_000 * x + 16_975_000_000 * y + 61_000_000 * z;
    let n3 = 30_000_000 * x + 136_000_000 * y + 9_834_000_000 * z;
    assert(10_961_238_000 * n1 + -2_788_690_000 * n2 + 1_827_451_900 * n3
        - 100_000_000_000_000_000_000 * x == -1_539_000_000_000 * x + -843_600_000_000 * y + 1_382_600_000_000 * z);
    crate::fixed::lemma_mat3_round_trip_channel(
        10_961_238_000,
        -2_788_690_000,
        1_827_451_900,
        n1,
        n2,
        n3,
        10_000_000_000,
        10_000_000_000,
        x,
        3_765_200_000_000_000_000_000,
        100,
    );
    assert(4_543_690_400 * n1 + 4_735_331_800 * n2 + 720_978_100 * n3
        - 100_000_000_000_000_000_000 * y == -1_950_600_000_000 * x + 4_285_000_000_000 * y + 665_600_000_000 * z);
    crate::fixed::lemma_mat3_round_trip_channel(
        4_543_690_400,
        4_735_331_800,
        720_978_100,
        n1,
        n2,
        n3,
        10_000_000_000,
        10_000_000_000,
        y,
        6_901_200_000_000_000_000_000,
        100,
    );
    assert(-96_276_095 * n1 + -56_980_313 * n2 + 10_153_257_000 * n3
        - 100_000_000_000_000_000_000 * z == -31_892_000_000 * x + 34_705_000_000 * y + 5_917_187_000_000 * z);
    crate::fixed::lemma_mat3_round_trip_channel(
        -96_276_095,
        -56_980_313,
        10_153_257_000,
        n1,
        n2,
        n3,
        10_000_000_000,
        10_000_000_000,
        z,
        5_983_784_000_000_000_000_000,
        100,
    );
}

} // verus!
