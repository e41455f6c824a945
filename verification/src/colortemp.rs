//! Blackbody color temperature and its Planckian-locus chromaticity.
//!
//! The chromaticity of an ideal blackbody at a given Kelvin temperature is
//! approximated by two cubic polynomials in `1/T` (breakpoint at 4000 K)
//! for `x`, then three cubics in `x` (breakpoints at 2222 K and 4000 K)
//! for `y`.  The coefficients are the fixed empirical fits of the CIE
//! approximation and are carried exactly as integers over their decimal
//! denominators.  The approximation is only valid on [1667, 25000] Kelvin;
//! outside that range the conversion yields no result rather than
//! extrapolating.

use vstd::math::abs;
use vstd::prelude::*;

use crate::cie1931::Cie1931xy;
use crate::fixed::{rdiv, FX_ONE};

verus! {

/// The coldest temperature, in Kelvin, the approximation accepts.
pub const PLANCK_MIN_KELVIN: u16 = 1667;

/// The hottest temperature, in Kelvin, the approximation accepts.
pub const PLANCK_MAX_KELVIN: u16 = 25000;

// Coefficients of the x polynomial
//   x = A/T^3 + B/T^2 + C/T + D
// scaled by 10^5 so that each is an exact integer; the low set serves
// T < 4000 K, the high set 4000 K and above.
pub const PLANCK_X_LO_A: i64 = -26_612_390_000_000;

pub const PLANCK_X_LO_B: i64 = -23_435_800_000;

pub const PLANCK_X_LO_C: i64 = 87_769_560;

pub const PLANCK_X_LO_D: i64 = 17_991;

pub const PLANCK_X_HI_A: i64 = -302_584_690_000_000;

pub const PLANCK_X_HI_B: i64 = 210_703_790_000;

pub const PLANCK_X_HI_C: i64 = 22_263_470;

pub const PLANCK_X_HI_D: i64 = 24_039;

// Coefficients of the y cubics
//   y = a*x^3 + b*x^2 + c*x + d
// scaled by 10^8 so that each is an exact integer; the three sets serve
// T < 2222 K, 2222 K <= T < 4000 K, and 4000 K and above.
pub const PLANCK_Y_LO_A: i64 = -110_638_140;

pub const PLANCK_Y_LO_B: i64 = -134_811_020;

pub const PLANCK_Y_LO_C: i64 = 218_444_832;

pub const PLANCK_Y_LO_D: i64 = -20_219_683;

pub const PLANCK_Y_MID_A: i64 = -95_494_760;

pub const PLANCK_Y_MID_B: i64 = -137_418_593;

pub const PLANCK_Y_MID_C: i64 = 209_137_015;

pub const PLANCK_Y_MID_D: i64 = -16_748_867;

pub const PLANCK_Y_HI_A: i64 = 308_175_800;

pub const PLANCK_Y_HI_B: i64 = -587_338_670;

pub const PLANCK_Y_HI_C: i64 = 375_112_997;

pub const PLANCK_Y_HI_D: i64 = -37_001_483;

/// One cubic-in-`1/T` polynomial, evaluated exactly as a single rounded
/// rational: `x = (a + b*t + c*t^2 + d*t^3) / (10^5 * t^3)` in fixed point.
pub open spec fn planck_x_poly(a: int, b: int, c: int, d: int, t: int) -> int {
    rdiv((FX_ONE as int) * (a + b * t + c * (t * t) + d * (t * (t * t))), 100_000 * (t * (t * t)))
}

/// One cubic-in-`x` polynomial, evaluated exactly as a single rounded
/// rational: `y = (a*x^3 + b*x^2 + c*x + d) / 10^8` in fixed point.
pub open spec fn planck_y_poly(a: int, b: int, c: int, d: int, x: int) -> int {
    rdiv(
        a * (x * (x * x)) + b * (x * x) * (FX_ONE as int) + c * x * 100_000_000_000_000 + d
            * 1_000_000_000_000_000_000_000,
        10_000_000_000_000_000_000_000,
    )
}

/// The x chromaticity of a blackbody at `t` Kelvin (valid on the
/// approximation's domain).
pub open spec fn planck_x_spec(t: int) -> int {
    if t < 4000 {
        planck_x_poly(
            PLANCK_X_LO_A as int,
            PLANCK_X_LO_B as int,
            PLANCK_X_LO_C as int,
            PLANCK_X_LO_D as int,
            t,
        )
    } else {
        planck_x_poly(
            PLANCK_X_HI_A as int,
            PLANCK_X_HI_B as int,
            PLANCK_X_HI_C as int,
            PLANCK_X_HI_D as int,
            t,
        )
    }
}

/// The y chromaticity of a blackbody at `t` Kelvin, given its x
/// chromaticity.
pub open spec fn planck_y_spec(t: int, x: int) -> int {
    if t < 2222 {
        planck_y_poly(
            PLANCK_Y_LO_A as int,
            PLANCK_Y_LO_B as int,
            PLANCK_Y_LO_C as int,
            PLANCK_Y_LO_D as int,
            x,
        )
    } else if t < 4000 {
        planck_y_poly(
            PLANCK_Y_MID_A as int,
            PLANCK_Y_MID_B as int,
            PLANCK_Y_MID_C as int,
            PLANCK_Y_MID_D as int,
            x,
        )
    } else {
        planck_y_poly(
            PLANCK_Y_HI_A as int,
            PLANCK_Y_HI_B as int,
            PLANCK_Y_HI_C as int,
            PLANCK_Y_HI_D as int,
            x,
        )
    }
}

/// Evaluates one x polynomial branch.  The result is bounded well inside
/// the chromaticity range.
fn planck_x_branch(a: i64, b: i64, c: i64, d: i64, t: i64) -> (r: i64)
    requires
        1667 <= t <= 25000,
        abs(a as int) <= 310_000_000_000_000,
        abs(b as int) <= 220_000_000_000,
        abs(c as int) <= 90_000_000,
        abs(d as int) <= 30_000,
    ensures
        r as int == planck_x_poly(a as int, b as int, c as int, d as int, t as int),
        abs(r as int) <= 100_000_000,
{
    let t128: i128 = t as i128;
    proof {
        assert(2_778_889 <= (t128 as int) * (t128 as int) <= 625_000_000) by (nonlinear_arith)
            requires
                1667 <= t128 <= 25_000,
        ;
    }
    let t2: i128 = t128 * t128;
    proof {
        assert(4_632_407_963 <= (t128 as int) * (t2 as int) <= 15_625_000_000_000) by (
        nonlinear_arith)
            requires
                1667 <= t128 <= 25_000,
                2_778_889 <= t2 <= 625_000_000,
        ;
    }
    let t3: i128 = t128 * t2;
    proof {
        assert(abs((b as int) * (t128 as int)) <= 5_500_000_000_000_000) by (nonlinear_arith)
            requires
                -220_000_000_000 <= b as int <= 220_000_000_000,
                1667 <= t128 <= 25_000,
        ;
        assert(abs((c as int) * (t2 as int)) <= 56_250_000_000_000_000) by (nonlinear_arith)
            requires
                -90_000_000 <= c as int <= 90_000_000,
                0 <= t2 <= 625_000_000,
        ;
        assert(abs((d as int) * (t3 as int)) <= 468_750_000_000_000_000) by (nonlinear_arith)
            requires
                -30_000 <= d as int <= 30_000,
                0 <= t3 <= 15_625_000_000_000,
        ;
    }
    let inner: i128 = (a as i128) + (b as i128) * t128 + (c as i128) * t2 + (d as i128) * t3;
    proof {
        assert(-6_000_000_000_000_000_000_000_000 <= (FX_ONE as int) * (inner as int)
            <= 6_000_000_000_000_000_000_000_000) by (nonlinear_arith)
            requires
                -600_000_000_000_000_000 <= inner as int <= 600_000_000_000_000_000,
        ;
    }
    let num: i128 = (FX_ONE as i128) * inner;
    let den: i128 = 100_000 * t3;
    let r128: i128 = crate::fixed::rdiv_i128(num, den);
    proof {
        let ghost ai = a as int;
        let ghost bi = b as int;
        let ghost ci = c as int;
        let ghost di = d as int;
        let ghost ti = t128 as int;
        let ghost t2i = t2 as int;
        let ghost t3i = t3 as int;
        let ghost deni = den as int;
        // Per-term bounds relative to the denominator 10^5 * t^3:
        //   a-term: |a| * FX_ONE <= 3.1e21 <= den * 10^7, since den > 4.63e14;
        //   b-term: t^3 >= 2778889 * t, so den >= 2.778889e11 * t and
        //           |b * t| * FX_ONE <= 2.2e18 * t <= den * 8e6;
        //   c-term: t^3 >= 1667 * t^2, so den >= 1.667e8 * t^2 and
        //           |c * t^2| * FX_ONE <= 9e14 * t^2 <= den * 6e6;
        //   d-term: |d * t^3| * FX_ONE <= 3e11 * t^3 = den * 3e6.
        // Together the quotient stays below 2.8e7, inside the i64 range.
        assert(t3i >= 1667 * t2i && t3i >= 2_778_889 * ti) by (nonlinear_arith)
            requires
                1667 <= ti <= 25_000,
                2_778_889 <= t2i,
                t2i == ti * ti,
                t3i == ti * t2i,
        ;
        assert(-(2_200_000_000_000_000_000 * ti) <= (bi * ti) * (FX_ONE as int) <= 2_200_000_000_000_000_000 * ti) by (nonlinear_arith)
            requires
                -220_000_000_000 <= bi <= 220_000_000_000,
                0 < ti,
        ;
        assert(-(900_000_000_000_000 * t2i) <= (ci * t2i) * (FX_ONE as int) <= 900_000_000_000_000 * t2i) by (nonlinear_arith)
            requires
                -90_000_000 <= ci <= 90_000_000,
                0 < t2i,
        ;
        assert(-(300_000_000_000 * t3i) <= (di * t3i) * (FX_ONE as int) <= 300_000_000_000 * t3i) by (nonlinear_arith)
            requires
                -30_000 <= di <= 30_000,
                0 < t3i,
        ;
        assert(-(deni * 28_000_000) <= num as int <= deni * 28_000_000) by (nonlinear_arith)
            requires
                num as int == (FX_ONE as int) * (ai + bi * ti + ci * t2i + di * t3i),
                deni == 100_000 * t3i,
                -310_000_000_000_000 <= ai <= 310_000_000_000_000,
                -(2_200_000_000_000_000_000 * ti) <= (bi * ti) * (FX_ONE as int) <= 2_200_000_000_000_000_000 * ti,
                -(900_000_000_000_000 * t2i) <= (ci * t2i) * (FX_ONE as int) <= 900_000_000_000_000 * t2i,
                -(300_000_000_000 * t3i) <= (di * t3i) * (FX_ONE as int) <= 300_000_000_000 * t3i,
                t3i >= 1667 * t2i,
                t3i >= 2_778_889 * ti,
                t3i >= 4_632_407_963,
                0 < ti,
                0 < t2i,
        ;
        crate::fixed::lemma_rdiv_bounded(num as int, deni, deni * 28_000_000, 28_000_000);
    }
    r128 as i64
}

/// Evaluates one y cubic branch.
fn planck_y_branch(a: i64, b: i64, c: i64, d: i64, x: i64) -> (r: i64)
    requires
        abs(x as int) <= 100_000_000,
        abs(a as int) <= 600_000_000,
        abs(b as int) <= 600_000_000,
        abs(c as int) <= 600_000_000,
        abs(d as int) <= 600_000_000,
    ensures
        r as int == planck_y_poly(a as int, b as int, c as int, d as int, x as int),
{
    let x128: i128 = x as i128;
    proof {
        assert(0 <= (x128 as int) * (x128 as int) <= 10_000_000_000_000_000) by (nonlinear_arith)
            requires
                -100_000_000 <= x128 <= 100_000_000,
        ;
    }
    let x2: i128 = x128 * x128;
    proof {
        assert(-1_000_000_000_000_000_000_000_000 <= (x128 as int) * (x2 as int)
            <= 1_000_000_000_000_000_000_000_000) by (nonlinear_arith)
            requires
                -100_000_000 <= x128 <= 100_000_000,
                0 <= x2 <= 10_000_000_000_000_000,
        ;
    }
    let x3: i128 = x128 * x2;
    proof {
        assert(-600_000_000_000_000_000_000_000_000_000_000 <= (a as int) * (x3 as int)
            <= 600_000_000_000_000_000_000_000_000_000_000) by (nonlinear_arith)
            requires
                -600_000_000 <= a as int <= 600_000_000,
                -1_000_000_000_000_000_000_000_000 <= x3 <= 1_000_000_000_000_000_000_000_000,
        ;
        assert(-6_000_000_000_000_000_000_000_000 <= (b as int) * (x2 as int)
            <= 6_000_000_000_000_000_000_000_000) by (nonlinear_arith)
            requires
                -600_000_000 <= b as int <= 600_000_000,
                0 <= x2 <= 10_000_000_000_000_000,
        ;
        assert(-60_000_000_000_000_000 <= (c as int) * (x128 as int) <= 60_000_000_000_000_000) by (
        nonlinear_arith)
            requires
                -600_000_000 <= c as int <= 600_000_000,
                -100_000_000 <= x128 <= 100_000_000,
        ;
    }
    proof {
        assert(-60_000_000_000_000_000_000_000_000_000_000 <= ((b as int) * (x2 as int)) * (
        FX_ONE as int) <= 60_000_000_000_000_000_000_000_000_000_000) by (nonlinear_arith)
            requires
                -6_000_000_000_000_000_000_000_000 <= (b as int) * (x2 as int)
                    <= 6_000_000_000_000_000_000_000_000,
        ;
        assert(-6_000_000_000_000_000_000_000_000_000_000 <= ((c as int) * (x128 as int))
            * 100_000_000_000_000 <= 6_000_000_000_000_000_000_000_000_000_000) by (
        nonlinear_arith)
            requires
                -60_000_000_000_000_000 <= (c as int) * (x128 as int) <= 60_000_000_000_000_000,
        ;
    }
    let num: i128 = (a as i128) * x3 + (b as i128) * x2 * (FX_ONE as i128) + (c as i128) * x128
        * 100_000_000_000_000 + (d as i128) * 1_000_000_000_000_000_000_000;
    let den: i128 = 10_000_000_000_000_000_000_000;
    let r128: i128 = crate::fixed::rdiv_i128(num, den);
    proof {
        crate::fixed::lemma_rdiv_fits(
            num as int,
            den as int,
            70_000_000_000_000_000_000_000_000_000_000_000,
        );
    }
    r128 as i64
}

/// A blackbody color temperature in Kelvin.
#[derive(Debug, Clone, Copy)]
pub struct ColorTemp(pub u16);

impl ColorTemp {
    /// Wraps a temperature in Kelvin.
    pub fn new(k: u16) -> (r: ColorTemp)
        ensures
            r.0 == k,
    {
        ColorTemp(k)
    }

    /// The Planckian-locus chromaticity of a blackbody at this
    /// temperature, or nothing when the temperature lies outside
    /// [1667, 25000] Kelvin, where the approximation is invalid.
    pub fn to_cie1931xy(&self) -> (r: Option<Cie1931xy>)
        ensures
            match r {
                Some(xy) => PLANCK_MIN_KELVIN <= self.0 <= PLANCK_MAX_KELVIN && xy.x as int
                    == planck_x_spec(self.0 as int) && xy.y as int == planck_y_spec(
                    self.0 as int,
                    planck_x_spec(self.0 as int),
                ),
                None => self.0 < PLANCK_MIN_KELVIN || self.0 > PLANCK_MAX_KELVIN,
            },
    {
        // The approximation is an empirical fit; outside its published
        // domain it must fail rather than extrapolate.
        if self.0 < PLANCK_MIN_KELVIN {
            return None;
        }
        if self.0 > PLANCK_MAX_KELVIN {
            return None;
        }
        let t: i64 = self.0 as i64;
        let x: i64 = if t < 4000 {
            planck_x_branch(PLANCK_X_LO_A, PLANCK_X_LO_B, PLANCK_X_LO_C, PLANCK_X_LO_D, t)
        } else {
            planck_x_branch(PLANCK_X_HI_A, PLANCK_X_HI_B, PLANCK_X_HI_C, PLANCK_X_HI_D, t)
        };
        let y: i64 = if t < 2222 {
            planck_y_branch(PLANCK_Y_LO_A, PLANCK_Y_LO_B, PLANCK_Y_LO_C, PLANCK_Y_LO_D, x)
        } else if t < 4000 {
            planck_y_branch(PLANCK_Y_MID_A, PLANCK_Y_MID_B, PLANCK_Y_MID_C, PLANCK_Y_MID_D, x)
        } else {
            planck_y_branch(PLANCK_Y_HI_A, PLANCK_Y_HI_B, PLANCK_Y_HI_C, PLANCK_Y_HI_D, x)
        };
        Some(Cie1931xy::new(x, y))
    }
}

} // verus!
