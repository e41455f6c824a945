//! A colorimetry engine over fixed-point arithmetic.
//!
//! The library converts light measurements and color values between
//! physically and perceptually defined color spaces: CIE 1931 XYZ (tagged
//! with its reference illuminant), its chromaticity-only xyY projection,
//! linear and gamma-encoded sRGB, 8-bit quantized sRGB, the ACES AP0
//! encoding, and LMS cone space.  It also derives blackbody chromaticity
//! from a color temperature and maps irradiance to a display level.
//!
//! Every real-valued quantity is represented as a signed 64-bit integer
//! scaled by `fixed::FX_ONE` (10^7), so the integer `v` stands for the
//! real number `v / 10^7`.  All published matrix and polynomial
//! coefficients are carried as exact integers over their own decimal
//! denominators, and every conversion's contract pins its result exactly:
//! each function returns the correctly rounded value of the published
//! formula at this resolution.

use vstd::prelude::*;

pub mod aces;
pub mod chromaticities;
pub mod cie1931;
pub mod colortemp;
pub mod fixed;
pub mod lms;
pub mod rec2020;
pub mod srgb;

verus! {

use crate::fixed::{rdiv, FX_ONE, FX_MAX_ABS};

/// The simulated contrast ratio between the white point and the black
/// point of the display mapping: 100,000:1.  The human eye has a static
/// contrast ratio nearer 1000:1 to 16000:1, but its rapid dynamic response
/// is closer to 100,000:1, which is what the mapping imitates.
pub const CONTRAST_RATIO: i64 = 100_000;

/// The display level that `color_level` assigns to an irradiance: 1.0 at
/// or above the white point, 0.0 at or below the black point
/// (`white_point / CONTRAST_RATIO`), and the linear interpolation between
/// the two in between.  The interpolation is deliberately linear rather
/// than logarithmic: a simple tone mapping, not a perceptual model.
pub open spec fn color_level_spec(irradiance: int, white_point: int) -> int {
    let black_point = rdiv(white_point, CONTRAST_RATIO as int);
    if irradiance >= white_point {
        FX_ONE as int
    } else if irradiance <= black_point {
        0
    } else {
        rdiv((irradiance - black_point) * (FX_ONE as int), white_point - black_point)
    }
}

/// Converts an irradiance in watts-or-lumens per square meter to a display
/// level in [0.0, 1.0] (fixed point), relative to the given white point and
/// presuming a 100,000:1 contrast ratio.
pub fn color_level(irradiance: i64, white_point: i64) -> (r: i64)
    requires
        1 <= white_point <= FX_MAX_ABS,
        -FX_MAX_ABS <= irradiance <= FX_MAX_ABS,
    ensures
        r == color_level_spec(irradiance as int, white_point as int),
        0 <= r <= FX_ONE,
{
    proof {
        crate::fixed::lemma_rdiv_lt_self(white_point as int, CONTRAST_RATIO as int);
    }
    let black_point: i64 = crate::fixed::rdiv64(white_point, CONTRAST_RATIO);
    if irradiance >= white_point {
        FX_ONE
    } else if irradiance <= black_point {
        0
    } else {
        proof {
            crate::fixed::lemma_rdiv_le_scale(
                irradiance - black_point,
                white_point - black_point,
            );
            crate::fixed::lemma_mul_fits_frac(
                irradiance - black_point,
                white_point - black_point,
            );
        }
        let r: i64 = crate::fixed::mul_rdiv(
            irradiance - black_point,
            FX_ONE,
            white_point - black_point,
        );
        r
    }
}

/// The display mapping is monotone: `color_level` is non-decreasing in
/// irradiance for a fixed white point.
pub proof fn lemma_color_level_monotonic(irr1: int, irr2: int, white_point: int)
    requires
        1 <= white_point,
        irr1 <= irr2,
    ensures
        color_level_spec(irr1, white_point) <= color_level_spec(irr2, white_point),
{
    let bp = rdiv(white_point, CONTRAST_RATIO as int);
    let d = white_point - bp;
    crate::fixed::lemma_rdiv_lt_self(white_point, CONTRAST_RATIO as int);
    if irr1 >= white_point || irr2 <= bp {
        // both levels sit at the same end of the range
    } else if irr2 >= white_point {
        if irr1 > bp {
            crate::fixed::lemma_rdiv_le_scale(irr1 - bp, d);
        }
    } else if irr1 <= bp {
        crate::fixed::lemma_rdiv_le_scale(irr2 - bp, d);
    } else {
        crate::fixed::lemma_mul_mono_left(irr1 - bp, irr2 - bp, FX_ONE as int);
        crate::fixed::lemma_rdiv_mono(
            (irr1 - bp) * (FX_ONE as int),
            (irr2 - bp) * (FX_ONE as int),
            d,
        );
    }
}

} // verus!
