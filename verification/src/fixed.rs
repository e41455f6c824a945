//! Fixed-point arithmetic shared by every color space in the library.
//!
//! A real quantity `r` is carried as the signed 64-bit integer nearest to
//! `r * FX_ONE`.  The one rounding primitive is `rdiv`, division rounded to
//! the nearest integer with ties away from zero; every conversion in the
//! library is specified as an exact composition of integer sums, products
//! and `rdiv` steps, so its contract pins the result completely.

use vstd::arithmetic::div_mod::{
    lemma_div_basics, lemma_div_is_ordered, lemma_div_is_ordered_by_denominator,
    lemma_div_pos_is_pos, lemma_fundamental_div_mod, lemma_fundamental_div_mod_converse,
    lemma_mod_division_less_than_divisor,
};
use vstd::arithmetic::mul::{lemma_mul_inequality, lemma_mul_nonnegative};
use vstd::math::abs;
use vstd::prelude::*;

verus! {

/// The fixed-point unit: the integer that stands for the real number 1.0.
pub const FX_ONE: i64 = 10_000_000;

/// The largest channel magnitude the conversions accept (10^8 in real
/// terms).  This is a machine limit only: it keeps every intermediate
/// product inside `i128` and every rounded result inside `i64`.
pub const FX_MAX_ABS: i64 = 1_000_000_000_000_000;

/// Division rounded to the nearest integer, ties away from zero.
/// Defined for positive divisors only.
pub open spec fn rdiv(n: int, d: int) -> int {
    if n >= 0 {
        (n + d / 2) / d
    } else {
        -((-n + d / 2) / d)
    }
}

/// Division rounded to the nearest integer, ties away from zero, for any
/// nonzero divisor: the sign is moved onto the numerator first.
pub open spec fn rdiv_signed(n: int, d: int) -> int {
    if d >= 0 {
        rdiv(n, d)
    } else {
        rdiv(-n, -d)
    }
}

/// One row of a fixed 3x3 matrix applied to a fixed-point vector: the
/// correctly rounded value of `(c1*x + c2*y + c3*z) / d`, where the
/// coefficients are integers over the denominator `d`.
pub open spec fn dot3_spec(c1: int, c2: int, c3: int, x: int, y: int, z: int, d: int) -> int {
    rdiv(c1 * x + c2 * y + c3 * z, d)
}

/// All three channels of a fixed-point color lie within the machine limit.
pub open spec fn fx3_in_range(x: int, y: int, z: int) -> bool {
    abs(x) <= FX_MAX_ABS as int && abs(y) <= FX_MAX_ABS as int && abs(z) <= FX_MAX_ABS as int
}

/// The rounded quotient is off from the exact quotient by at most half a
/// divisor: `2 * |n - rdiv(n, d) * d| <= d`.
pub proof fn lemma_rdiv_error(n: int, d: int)
    requires
        1 <= d,
    ensures
        2 * abs(n - rdiv(n, d) * d) <= d,
{
    let h = d / 2;
    lemma_fundamental_div_mod(d, 2);
    lemma_mod_division_less_than_divisor(d, 2);
    if n >= 0 {
        let q = (n + h) / d;
        lemma_fundamental_div_mod(n + h, d);
        lemma_mod_division_less_than_divisor(n + h, d);
        assert(n - q * d == (n + h) % d - h) by (nonlinear_arith)
            requires
                n + h == d * q + ((n + h) % d),
        ;
    } else {
        let q = (-n + h) / d;
        lemma_fundamental_div_mod(-n + h, d);
        lemma_mod_division_less_than_divisor(-n + h, d);
        assert(n - (-q) * d == h - ((-n + h) % d)) by (nonlinear_arith)
            requires
                -n + h == d * q + ((-n + h) % d),
        ;
    }
}

/// An exact multiple divides without rounding: `rdiv(k * d, d) == k`.
pub proof fn lemma_rdiv_exact(k: int, d: int)
    requires
        1 <= d,
    ensures
        rdiv(k * d, d) == k,
{
    let h = d / 2;
    lemma_fundamental_div_mod(d, 2);
    lemma_mod_division_less_than_divisor(d, 2);
    if k >= 0 {
        lemma_mul_nonnegative(k, d);
        lemma_fundamental_div_mod_converse(k * d + h, d, k, h);
    } else {
        assert(k * d <= -d && -(k * d) == (-k) * d) by (nonlinear_arith)
            requires
                k <= -1,
                d >= 1,
        ;
        lemma_fundamental_div_mod_converse((-k) * d + h, d, -k, h);
    }
}

/// Any value within half a divisor of the multiple `k * d` rounds to `k`.
pub proof fn lemma_rdiv_unique(n: int, d: int, k: int)
    requires
        1 <= d,
        2 * abs(n - k * d) < d,
    ensures
        rdiv(n, d) == k,
{
    let h = d / 2;
    let e = n - k * d;
    lemma_fundamental_div_mod(d, 2);
    lemma_mod_division_less_than_divisor(d, 2);
    if n >= 0 {
        if k <= -1 {
            assert(k * d <= -d) by (nonlinear_arith)
                requires
                    k <= -1,
                    d >= 1,
            ;
            assert(false);
        }
        lemma_fundamental_div_mod_converse(n + h, d, k, e + h);
    } else {
        if k >= 1 {
            assert(k * d >= d) by (nonlinear_arith)
                requires
                    k >= 1,
                    d >= 1,
            ;
            assert(false);
        }
        assert(-n + h == (-k) * d + (h - e)) by (nonlinear_arith)
            requires
                e == n - k * d,
        ;
        lemma_fundamental_div_mod_converse(-n + h, d, -k, h - e);
    }
}

/// Rounded division is monotone in the numerator.
pub proof fn lemma_rdiv_mono(n1: int, n2: int, d: int)
    requires
        1 <= d,
        n1 <= n2,
    ensures
        rdiv(n1, d) <= rdiv(n2, d),
{
    if n1 >= 0 {
        lemma_div_is_ordered(n1 + d / 2, n2 + d / 2, d);
    } else if n2 < 0 {
        lemma_div_is_ordered(-n2 + d / 2, -n1 + d / 2, d);
    } else {
        lemma_div_pos_is_pos(-n1 + d / 2, d);
        lemma_div_pos_is_pos(n2 + d / 2, d);
    }
}

/// A nonnegative numerator rounds to a nonnegative quotient.
pub proof fn lemma_rdiv_nonneg(n: int, d: int)
    requires
        0 <= n,
        1 <= d,
    ensures
        0 <= rdiv(n, d),
{
    lemma_div_pos_is_pos(n + d / 2, d);
}

/// A numerator of magnitude at most `d * bound` rounds to a quotient of
/// magnitude at most `bound`.
pub proof fn lemma_rdiv_bounded(n: int, d: int, m: int, bound: int)
    requires
        1 <= d,
        abs(n) <= m,
        m <= d * bound,
        0 <= bound,
    ensures
        abs(rdiv(n, d)) <= bound,
{
    let q = rdiv(n, d);
    lemma_rdiv_error(n, d);
    if q > bound {
        lemma_mul_inequality(bound + 1, q, d);
        assert((bound + 1) * d == bound * d + d && d * bound == bound * d) by (nonlinear_arith);
        assert(false);
    }
    if q < -bound {
        lemma_mul_inequality(q, -bound - 1, d);
        assert((-bound - 1) * d == -(bound * d) - d && d * bound == bound * d) by (
        nonlinear_arith);
        assert(false);
    }
}

/// A numerator no larger than `d * i64::MAX` in magnitude rounds to a
/// quotient that fits in an `i64`.
pub proof fn lemma_rdiv_fits(n: int, d: int, m: int)
    requires
        1 <= d,
        abs(n) <= m,
        m <= d * (i64::MAX as int),
    ensures
        abs(rdiv(n, d)) <= i64::MAX as int,
{
    lemma_rdiv_bounded(n, d, m, i64::MAX as int);
}

/// Dividing a positive value by a divisor of at least 3 shrinks it:
/// `0 <= rdiv(n, d) < n`.
pub proof fn lemma_rdiv_lt_self(n: int, d: int)
    requires
        1 <= n,
        3 <= d,
    ensures
        0 <= rdiv(n, d) < n,
{
    let h = d / 2;
    lemma_fundamental_div_mod(d, 2);
    lemma_mod_division_less_than_divisor(d, 2);
    lemma_div_pos_is_pos(n + h, d);
    let q = (n + h) / d;
    lemma_fundamental_div_mod(n + h, d);
    lemma_mod_division_less_than_divisor(n + h, d);
    if q >= n {
        assert(false) by (nonlinear_arith)
            requires
                n >= 1,
                d >= 3,
                q >= n,
                2 * h <= d,
                n + h == d * q + ((n + h) % d),
                (n + h) % d >= 0,
        ;
    }
}

/// Scaling a fraction `a / d` with `0 <= a <= d` into fixed point stays
/// inside `[0, FX_ONE]`.
pub proof fn lemma_rdiv_le_scale(a: int, d: int)
    requires
        0 <= a <= d,
        1 <= d,
    ensures
        0 <= rdiv(a * (FX_ONE as int), d) <= FX_ONE,
{
    lemma_mul_nonnegative(a, FX_ONE as int);
    lemma_rdiv_nonneg(a * (FX_ONE as int), d);
    lemma_mul_inequality(a, d, FX_ONE as int);
    lemma_rdiv_mono(a * (FX_ONE as int), d * (FX_ONE as int), d);
    assert(d * (FX_ONE as int) == (FX_ONE as int) * d) by (nonlinear_arith);
    lemma_rdiv_exact(FX_ONE as int, d);
}

/// A numerator `a * FX_ONE` with `0 <= a <= d` is small enough for
/// `mul_rdiv` with divisor `d`.
pub proof fn lemma_mul_fits_frac(a: int, d: int)
    requires
        0 <= a <= d,
    ensures
        abs(a * (FX_ONE as int)) <= d * (i64::MAX as int),
{
    assert(0 <= a * (FX_ONE as int) <= d * (i64::MAX as int)) by (nonlinear_arith)
        requires
            0 <= a <= d,
    ;
}

/// Multiplying both sides of `a <= b` by a nonnegative factor keeps the order.
pub proof fn lemma_mul_mono_left(a: int, b: int, c: int)
    requires
        a <= b,
        0 <= c,
    ensures
        a * c <= b * c,
{
    lemma_mul_inequality(a, b, c);
}

/// The error bound for one channel of a matrix round trip.  Applying one
/// fixed matrix (numerators `n1, n2, n3`, denominator `ca`) and then a
/// second row (`b1, b2, b3` over `cb`) recovers the original channel `vk`
/// up to `tol`, provided the two matrices compose to the identity up to
/// `emax` on these inputs and the rounding slack fits under the tolerance.
pub proof fn lemma_mat3_round_trip_channel(
    b1: int,
    b2: int,
    b3: int,
    n1: int,
    n2: int,
    n3: int,
    ca: int,
    cb: int,
    vk: int,
    emax: int,
    tol: int,
)
    requires
        1 <= ca,
        1 <= cb,
        0 <= tol,
        0 <= emax,
        abs(b1 * n1 + b2 * n2 + b3 * n3 - (ca * cb) * vk) <= emax,
        2 * emax + (abs(b1) + abs(b2) + abs(b3)) * ca + ca * cb <= 2 * tol * (ca * cb),
    ensures
        abs(rdiv(b1 * rdiv(n1, ca) + b2 * rdiv(n2, ca) + b3 * rdiv(n3, ca), cb) - vk) <= tol,
{
    let w1 = rdiv(n1, ca);
    let w2 = rdiv(n2, ca);
    let w3 = rdiv(n3, ca);
    let s = b1 * w1 + b2 * w2 + b3 * w3;
    let r = rdiv(s, cb);
    lemma_rdiv_error(n1, ca);
    lemma_rdiv_error(n2, ca);
    lemma_rdiv_error(n3, ca);
    lemma_rdiv_error(s, cb);
    let a1 = abs(b1) as int;
    let a2 = abs(b2) as int;
    let a3 = abs(b3) as int;
    let ek = b1 * n1 + b2 * n2 + b3 * n3 - (ca * cb) * vk;
    assert(-(a1 * ca) <= 2 * (b1 * (w1 * ca) - b1 * n1) <= a1 * ca) by (nonlinear_arith)
        requires
            -a1 <= b1 <= a1,
            -ca <= 2 * (w1 * ca - n1) <= ca,
            0 <= a1,
    ;
    assert(-(a2 * ca) <= 2 * (b2 * (w2 * ca) - b2 * n2) <= a2 * ca) by (nonlinear_arith)
        requires
            -a2 <= b2 <= a2,
            -ca <= 2 * (w2 * ca - n2) <= ca,
            0 <= a2,
    ;
    assert(-(a3 * ca) <= 2 * (b3 * (w3 * ca) - b3 * n3) <= a3 * ca) by (nonlinear_arith)
        requires
            -a3 <= b3 <= a3,
            -ca <= 2 * (w3 * ca - n3) <= ca,
            0 <= a3,
    ;
    assert(ca * s == ca * (b1 * w1) + ca * (b2 * w2) + ca * (b3 * w3)) by (nonlinear_arith)
        requires
            s == b1 * w1 + b2 * w2 + b3 * w3,
    ;
    assert(ca * (b1 * w1) == b1 * (w1 * ca)) by (nonlinear_arith);
    assert(ca * (b2 * w2) == b2 * (w2 * ca)) by (nonlinear_arith);
    assert(ca * (b3 * w3) == b3 * (w3 * ca)) by (nonlinear_arith);
    assert((ca * cb) * (r - vk) == ca * ((r * cb) - s) + (ca * s - (ca * cb) * vk)) by (
    nonlinear_arith);
    assert((2 * (ca * cb)) * (r - vk) == 2 * ((ca * cb) * (r - vk))) by (nonlinear_arith);
    assert(-(ca * cb) <= 2 * (ca * ((r * cb) - s)) <= ca * cb) by (nonlinear_arith)
        requires
            1 <= ca,
            -cb <= 2 * ((r * cb) - s) <= cb,
    ;
    assert((a1 + a2 + a3) * ca == a1 * ca + a2 * ca + a3 * ca) by (nonlinear_arith);
    assert(-tol <= r - vk <= tol) by (nonlinear_arith)
        requires
            1 <= ca,
            1 <= cb,
            0 <= tol,
            -(2 * tol * (ca * cb)) <= (2 * (ca * cb)) * (r - vk) <= 2 * tol * (ca * cb),
    ;
}

/// Integer exponentiation, the reference for the root-finding below.
pub open spec fn power(b: int, e: nat) -> int
    decreases e,
{
    if e == 0 {
        1
    } else {
        b * power(b, (e - 1) as nat)
    }
}

/// `r` is the integer `e`-th root of `n`, rounded down.
pub open spec fn is_iroot(n: int, e: nat, r: int) -> bool {
    0 <= r && power(r, e) <= n < power(r + 1, e)
}

/// The integer `e`-th root of `n`, rounded down.
pub open spec fn iroot_spec(n: int, e: nat) -> int {
    choose|r: int| #[trigger] is_iroot(n, e, r)
}

/// A power of a nonnegative base is nonnegative.
pub proof fn lemma_power_nonneg(b: int, e: nat)
    requires
        0 <= b,
    ensures
        0 <= power(b, e),
    decreases e,
{
    if e > 0 {
        lemma_power_nonneg(b, (e - 1) as nat);
        lemma_mul_nonnegative(b, power(b, (e - 1) as nat));
    }
}

/// Exponentiation is monotone in the base on nonnegative values.
pub proof fn lemma_power_mono_base(a: int, b: int, e: nat)
    requires
        0 <= a <= b,
    ensures
        power(a, e) <= power(b, e),
    decreases e,
{
    if e > 0 {
        lemma_power_mono_base(a, b, (e - 1) as nat);
        lemma_power_nonneg(a, (e - 1) as nat);
        assert(a * power(a, (e - 1) as nat) <= b * power(b, (e - 1) as nat)) by (nonlinear_arith)
            requires
                0 <= a <= b,
                0 <= power(a, (e - 1) as nat) <= power(b, (e - 1) as nat),
        ;
    }
}

/// Exponentiation with a positive exponent is strictly monotone in the
/// base on nonnegative values.
pub proof fn lemma_power_strict_mono_base(a: int, b: int, e: nat)
    requires
        0 <= a < b,
        1 <= e,
    ensures
        power(a, e) < power(b, e),
    decreases e,
{
    if e == 1 {
        assert(power(a, 1) == a * power(a, 0));
        assert(power(b, 1) == b * power(b, 0));
    } else {
        lemma_power_strict_mono_base(a, b, (e - 1) as nat);
        lemma_power_nonneg(a, (e - 1) as nat);
        assert(a * power(a, (e - 1) as nat) < b * power(b, (e - 1) as nat)) by (nonlinear_arith)
            requires
                0 <= a < b,
                0 <= power(a, (e - 1) as nat) < power(b, (e - 1) as nat),
        ;
    }
}

/// Exponentiation of a base of at least one is monotone in the exponent.
pub proof fn lemma_power_mono_exp(b: int, e1: nat, e2: nat)
    requires
        1 <= b,
        e1 <= e2,
    ensures
        power(b, e1) <= power(b, e2),
    decreases e2,
{
    if e1 < e2 {
        lemma_power_mono_exp(b, e1, (e2 - 1) as nat);
        lemma_power_nonneg(b, (e2 - 1) as nat);
        assert(power(b, (e2 - 1) as nat) <= b * power(b, (e2 - 1) as nat)) by (nonlinear_arith)
            requires
                1 <= b,
                0 <= power(b, (e2 - 1) as nat),
        ;
    }
}

/// Every nonnegative integer has an `e`-th root for a positive exponent.
pub proof fn lemma_iroot_exists(n: int, e: nat)
    requires
        0 <= n,
        1 <= e,
    ensures
        exists|r: int| #[trigger] is_iroot(n, e, r),
    decreases n,
{
    if n == 0 {
        lemma_power_strict_mono_base(0, 1, e);
        assert(power(0, e) == 0) by {
            lemma_power_mono_base(0, 0, e);
            lemma_power_zero(e);
        }
        assert(is_iroot(0, e, 0));
    } else {
        lemma_iroot_exists(n - 1, e);
        let r = choose|r: int| #[trigger] is_iroot(n - 1, e, r);
        if power(r + 1, e) == n {
            lemma_power_strict_mono_base(r + 1, r + 2, e);
            assert(is_iroot(n, e, r + 1));
        } else {
            assert(is_iroot(n, e, r));
        }
    }
}

/// A positive power of zero is zero.
pub proof fn lemma_power_zero(e: nat)
    requires
        1 <= e,
    ensures
        power(0, e) == 0,
{
    assert(power(0, e) == 0 * power(0, (e - 1) as nat));
}

/// The rounded-down `e`-th root is unique.
pub proof fn lemma_iroot_unique(n: int, e: nat, r1: int, r2: int)
    requires
        1 <= e,
        is_iroot(n, e, r1),
        is_iroot(n, e, r2),
    ensures
        r1 == r2,
{
    if r1 < r2 {
        lemma_power_mono_base(r1 + 1, r2, e);
        assert(false);
    }
    if r2 < r1 {
        lemma_power_mono_base(r2 + 1, r1, e);
        assert(false);
    }
}

/// The rounded-down root returned by `iroot_spec` satisfies its defining
/// property.
pub proof fn lemma_iroot_spec_props(n: int, e: nat)
    requires
        0 <= n,
        1 <= e,
    ensures
        is_iroot(n, e, iroot_spec(n, e)),
{
    lemma_iroot_exists(n, e);
}

/// The cube written as a product.
pub proof fn lemma_power3_val(r: int)
    ensures
        power(r, 3) == (r * r) * r,
{
    assert(power(r, 3) == r * (r * (r * 1))) by {
        reveal_with_fuel(power, 4);
    }
    assert(r * (r * (r * 1)) == (r * r) * r) by (nonlinear_arith);
}

/// The fourth power written as a product.
pub proof fn lemma_power4_val(r: int)
    ensures
        power(r, 4) == (r * r) * (r * r),
{
    assert(power(r, 4) == r * (r * (r * (r * 1)))) by {
        reveal_with_fuel(power, 5);
    }
    assert(r * (r * (r * (r * 1))) == (r * r) * (r * r)) by (nonlinear_arith);
}

/// The fifth power written as a product.
pub proof fn lemma_power5_val(r: int)
    ensures
        power(r, 5) == ((r * r) * (r * r)) * r,
{
    assert(power(r, 5) == r * (r * (r * (r * (r * 1))))) by {
        reveal_with_fuel(power, 6);
    }
    assert(r * (r * (r * (r * (r * 1)))) == ((r * r) * (r * r)) * r) by (nonlinear_arith);
}

/// Exact integer exponentiation on machine words.
pub fn power_u128(b: u64, e: u32) -> (r: u128)
    requires
        1 <= b,
        power(b as int, e as nat) <= u128::MAX,
    ensures
        r as int == power(b as int, e as nat),
{
    let mut acc: u128 = 1;
    let mut i: u32 = 0;
    while i < e
        invariant
            1 <= b,
            i <= e,
            acc as int == power(b as int, i as nat),
            power(b as int, e as nat) <= u128::MAX,
        decreases e - i,
    {
        proof {
            lemma_power_nonneg(b as int, i as nat);
            assert(power(b as int, (i + 1) as nat) == (b as int) * power(b as int, i as nat));
            assert((acc as int) * (b as int) == (b as int) * (acc as int)) by (nonlinear_arith);
            lemma_power_mono_exp(b as int, (i + 1) as nat, e as nat);
        }
        acc = acc * (b as u128);
        i = i + 1;
    }
    acc
}

/// The integer `e`-th root, by binary search on [0, 10^7]: the returned
/// `r` satisfies `r^e <= n < (r+1)^e` exactly.
pub fn iroot(n: u128, e: u32) -> (r: u64)
    requires
        1 <= e <= 5,
        n as int <= power(10_000_000, e as nat),
    ensures
        0 <= r <= 10_000_000,
        is_iroot(n as int, e as nat, r as int),
        r as int == iroot_spec(n as int, e as nat),
{
    proof {
        lemma_power_zero(e as nat);
        lemma_power_strict_mono_base(10_000_000, 10_000_001, e as nat);
    }
    let mut lo: u64 = 0;
    let mut hi: u64 = 10_000_001;
    while lo + 1 < hi
        invariant
            1 <= e <= 5,
            lo < hi <= 10_000_001,
            power(lo as int, e as nat) <= n as int,
            (n as int) < power(hi as int, e as nat),
        decreases hi - lo,
    {
        let mid: u64 = lo + (hi - lo) / 2;
        proof {
            lemma_power_mono_base(mid as int, 10_000_000, e as nat);
            lemma_power_mono_exp(10_000_000, e as nat, 5);
            assert(power(10_000_000, 5) == 100_000_000_000_000_000_000_000_000_000_000_000) by {
                reveal_with_fuel(power, 6);
            }
        }
        let p: u128 = power_u128(mid, e);
        if p <= n {
            lo = mid;
        } else {
            hi = mid;
        }
    }
    proof {
        lemma_iroot_exists(n as int, e as nat);
        let witness = choose|r: int| #[trigger] is_iroot(n as int, e as nat, r);
        lemma_iroot_unique(n as int, e as nat, lo as int, witness);
    }
    lo
}

/// Exact rounded division on `i128`, the executable form of `rdiv`.
pub fn rdiv_i128(n: i128, d: i128) -> (r: i128)
    requires
        1 <= d,
        i128::MIN < n,
    ensures
        r as int == rdiv(n as int, d as int),
{
    let neg: bool = n < 0;
    let m: u128 = if neg {
        (-n) as u128
    } else {
        n as u128
    };
    let hd: u128 = (d as u128) / 2;
    let q: u128 = (m + hd) / (d as u128);
    proof {
        if d == 1 {
            lemma_div_basics(m as int + hd as int);
        } else {
            lemma_div_is_ordered_by_denominator(m as int + hd as int, 2, d as int);
        }
    }
    if neg {
        -(q as i128)
    } else {
        q as i128
    }
}

/// Exact rounded division on `i64`.
pub fn rdiv64(n: i64, d: i64) -> (r: i64)
    requires
        1 <= d,
        i64::MIN < n,
    ensures
        r as int == rdiv(n as int, d as int),
{
    let r: i128 = rdiv_i128(n as i128, d as i128);
    proof {
        assert((i64::MAX as int) <= (d as int) * (i64::MAX as int)) by (nonlinear_arith)
            requires
                1 <= d,
        ;
        lemma_rdiv_fits(n as int, d as int, i64::MAX as int);
    }
    r as i64
}

/// The rounded product `rdiv(a * b, d)`: the fixed-point multiply/rescale.
pub fn mul_rdiv(a: i64, b: i64, d: i64) -> (r: i64)
    requires
        1 <= d,
        abs((a as int) * (b as int)) <= (d as int) * (i64::MAX as int),
    ensures
        r as int == rdiv((a as int) * (b as int), d as int),
{
    proof {
        assert(i128::MIN < (a as int) * (b as int) < i128::MAX) by (nonlinear_arith);
    }
    let n: i128 = (a as i128) * (b as i128);
    let r: i128 = rdiv_i128(n, d as i128);
    proof {
        lemma_rdiv_fits(n as int, d as int, (d as int) * (i64::MAX as int));
    }
    r as i64
}

/// An exact multiple divides without rounding for any nonzero divisor:
/// `rdiv_signed(k * d, d) == k`.
pub proof fn lemma_rdiv_signed_exact(k: int, d: int)
    requires
        d != 0,
    ensures
        rdiv_signed(k * d, d) == k,
{
    if d >= 1 {
        lemma_rdiv_exact(k, d);
    } else {
        assert(-(k * d) == k * (-d)) by (nonlinear_arith);
        lemma_rdiv_exact(k, -d);
    }
}

/// The rounded product `rdiv_signed(a * b, d)`: the fixed-point
/// multiply/rescale for a divisor of either sign.
pub fn mul_rdiv_signed(a: i64, b: i64, d: i64) -> (r: i64)
    requires
        d != 0,
        abs((a as int) * (b as int)) <= abs(d as int) * (i64::MAX as int),
    ensures
        r as int == rdiv_signed((a as int) * (b as int), d as int),
{
    proof {
        assert(i128::MIN < (a as int) * (b as int) < i128::MAX) by (nonlinear_arith);
    }
    let n: i128 = (a as i128) * (b as i128);
    if d >= 1 {
        let r: i128 = rdiv_i128(n, d as i128);
        proof {
            lemma_rdiv_fits(n as int, d as int, (d as int) * (i64::MAX as int));
        }
        r as i64
    } else {
        let r: i128 = rdiv_i128(-n, -(d as i128));
        proof {
            lemma_rdiv_fits(-(n as int), -(d as int), (-(d as int)) * (i64::MAX as int));
        }
        r as i64
    }
}

/// The rounded three-term dot product `rdiv(c1*x + c2*y + c3*z, d)`: one
/// row of a fixed 3x3 matrix applied to a fixed-point vector, where the
/// coefficients `c1, c2, c3` are integers over the denominator `d`.
pub fn dot3(c1: i64, c2: i64, c3: i64, x: i64, y: i64, z: i64, d: i64) -> (r: i64)
    requires
        1 <= d,
        abs(x as int) <= FX_MAX_ABS as int,
        abs(y as int) <= FX_MAX_ABS as int,
        abs(z as int) <= FX_MAX_ABS as int,
        (abs(c1 as int) + abs(c2 as int) + abs(c3 as int)) * (FX_MAX_ABS as int) <= (d as int) * (
        i64::MAX as int),
    ensures
        r as int == dot3_spec(c1 as int, c2 as int, c3 as int, x as int, y as int, z as int,
            d as int),
{
    let ghost a1 = abs(c1 as int) as int;
    let ghost a2 = abs(c2 as int) as int;
    let ghost a3 = abs(c3 as int) as int;
    proof {
        assert(-(a1 * (FX_MAX_ABS as int)) <= (c1 as int) * (x as int) <= a1 * (
        FX_MAX_ABS as int)) by (nonlinear_arith)
            requires
                -a1 <= c1 as int <= a1,
                -(FX_MAX_ABS as int) <= x as int <= FX_MAX_ABS as int,
                0 <= a1,
        ;
        assert(-(a2 * (FX_MAX_ABS as int)) <= (c2 as int) * (y as int) <= a2 * (
        FX_MAX_ABS as int)) by (nonlinear_arith)
            requires
                -a2 <= c2 as int <= a2,
                -(FX_MAX_ABS as int) <= y as int <= FX_MAX_ABS as int,
                0 <= a2,
        ;
        assert(-(a3 * (FX_MAX_ABS as int)) <= (c3 as int) * (z as int) <= a3 * (
        FX_MAX_ABS as int)) by (nonlinear_arith)
            requires
                -a3 <= c3 as int <= a3,
                -(FX_MAX_ABS as int) <= z as int <= FX_MAX_ABS as int,
                0 <= a3,
        ;
        assert((a1 + a2 + a3) * (FX_MAX_ABS as int) == a1 * (FX_MAX_ABS as int) + a2 * (
        FX_MAX_ABS as int) + a3 * (FX_MAX_ABS as int)) by (nonlinear_arith);
    }
    let n: i128 = (c1 as i128) * (x as i128) + (c2 as i128) * (y as i128) + (c3 as i128) * (
    z as i128);
    let r: i128 = rdiv_i128(n, d as i128);
    proof {
        lemma_rdiv_fits(n as int, d as int, (a1 + a2 + a3) * (FX_MAX_ABS as int));
    }
    r as i64
}

} // verus!
