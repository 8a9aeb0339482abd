//! Fixed-point scalars: an `i64` number of 1/65536 units.
//!
//! All renderer arithmetic happens on these scalars.  Sums saturate at the
//! `i64` range, products and quotients divide by or multiply with the scale
//! and truncate toward zero, and the square root rounds down.  The spec
//! functions here are the mathematical model that every contract in the
//! crate is stated over.

use vstd::prelude::*;

verus! {

/// Number of fixed-point units in one whole unit: scalar `s` stands for the
/// real number `s / 65536`.
pub const SCALE: i64 = 65536;

/// Truncating (round-toward-zero) division, the rounding machine integers
/// use; `b` must not be zero for the result to be meaningful.
pub open spec fn tdiv(a: int, b: int) -> int {
    if a >= 0 {
        a / b
    } else {
        -((-a) / b)
    }
}

/// Saturate a mathematical integer into the `i64` range.
pub open spec fn sat64(x: int) -> i64 {
    if x > i64::MAX {
        i64::MAX
    } else if x < i64::MIN {
        i64::MIN
    } else {
        x as i64
    }
}

/// Saturating fixed-point sum.
pub open spec fn fadd(a: i64, b: i64) -> i64 {
    sat64(a + b)
}

/// Saturating fixed-point difference.
pub open spec fn fsub(a: i64, b: i64) -> i64 {
    sat64(a - b)
}

/// Saturating fixed-point negation.
pub open spec fn fneg(a: i64) -> i64 {
    sat64(-a)
}

/// Fixed-point product: `(a * b) / SCALE`, truncated and saturated.
pub open spec fn fmul(a: i64, b: i64) -> i64 {
    sat64(tdiv(a * b, SCALE as int))
}

/// Fixed-point quotient: `(a * SCALE) / b`, truncated and saturated.
/// Zero divisors are ruled out by the executable functions; the spec maps
/// them to 0 so that the model stays total.
pub open spec fn fdiv(a: i64, b: i64) -> i64 {
    if b == 0 {
        0
    } else {
        sat64(tdiv(a * SCALE, b as int))
    }
}

/// `r` is the integer square root of `n`.
pub open spec fn is_isqrt(r: int, n: int) -> bool {
    0 <= r && r * r <= n && n < (r + 1) * (r + 1)
}

/// Integer square root (rounds down); meaningful for `n >= 0`.
pub open spec fn isqrt(n: int) -> int {
    choose|r: int| #[trigger] is_isqrt(r, n)
}

/// Fixed-point square root: `sqrt(a * SCALE)` rounded down, so that the
/// result is again in 1/65536 units.  Non-positive inputs map to 0.
pub open spec fn fsqrt(a: i64) -> i64 {
    if a <= 0 {
        0
    } else {
        sat64(isqrt(a * SCALE))
    }
}

/// Absolute value, saturated (the magnitude of `i64::MIN` does not fit).
pub open spec fn fabs(a: i64) -> i64 {
    if a >= 0 {
        a
    } else {
        fneg(a)
    }
}

/// The smaller of two scalars.
pub open spec fn fmin(a: i64, b: i64) -> i64 {
    if a <= b {
        a
    } else {
        b
    }
}

/// The larger of two scalars.
pub open spec fn fmax(a: i64, b: i64) -> i64 {
    if a >= b {
        a
    } else {
        b
    }
}

/// Any two integer square roots of the same number agree.
pub proof fn lemma_isqrt_unique(r1: int, r2: int, n: int)
    by (nonlinear_arith)
    requires
        is_isqrt(r1, n),
        is_isqrt(r2, n),
    ensures
        r1 == r2,
{
}

/// Every non-negative number has an integer square root.
pub proof fn lemma_isqrt_exists(n: int)
    requires
        n >= 0,
    ensures
        exists|r: int| #[trigger] is_isqrt(r, n),
    decreases n,
{
    if n == 0 {
        assert(is_isqrt(0, 0)) by (nonlinear_arith);
    } else {
        lemma_isqrt_exists(n - 1);
        let r0 = choose|r: int| #[trigger] is_isqrt(r, n - 1);
        if (r0 + 1) * (r0 + 1) <= n {
            assert(is_isqrt(r0 + 1, n)) by (nonlinear_arith)
                requires
                    is_isqrt(r0, n - 1),
                    (r0 + 1) * (r0 + 1) <= n,
            ;
        } else {
            assert(is_isqrt(r0, n)) by (nonlinear_arith)
                requires
                    is_isqrt(r0, n - 1),
                    (r0 + 1) * (r0 + 1) > n,
            ;
        }
    }
}

/// The square root of a non-negative number is pinned by `is_isqrt`.
pub proof fn lemma_isqrt_is(r: int, n: int)
    requires
        is_isqrt(r, n),
    ensures
        isqrt(n) == r,
{
    lemma_isqrt_unique(r, choose|s: int| #[trigger] is_isqrt(s, n), n);
}

/// A product of numbers bounded in magnitude is bounded by the product of
/// the bounds.
pub proof fn lemma_mul_bounds(a: int, b: int, am: int, bm: int)
    by (nonlinear_arith)
    requires
        -am <= a <= am,
        -bm <= b <= bm,
        0 <= am,
        0 <= bm,
    ensures
        -(am * bm) <= a * b <= am * bm,
{
}

/// Truncating division by a positive number keeps the magnitude and the sign
/// of the dividend.
pub proof fn lemma_tdiv_bounds(p: int, b: int)
    requires
        b > 0,
    ensures
        p >= 0 ==> 0 <= tdiv(p, b) <= p,
        p < 0 ==> p <= tdiv(p, b) <= 0,
{
    if p >= 0 {
        vstd::arithmetic::div_mod::lemma_div_pos_is_pos(p, b);
        vstd::arithmetic::div_mod::lemma_div_nonincreasing(p, b);
    } else {
        vstd::arithmetic::div_mod::lemma_div_pos_is_pos(-p, b);
        vstd::arithmetic::div_mod::lemma_div_nonincreasing(-p, b);
    }
}

/// Saturate a wide intermediate into an `i64`.
pub fn sat_i64(x: i128) -> (r: i64)
    ensures
        r == sat64(x as int),
{
    if x > i64::MAX as i128 {
        i64::MAX
    } else if x < i64::MIN as i128 {
        i64::MIN
    } else {
        x as i64
    }
}

/// Saturating sum.
pub fn fx_add(a: i64, b: i64) -> (r: i64)
    ensures
        r == fadd(a, b),
{
    sat_i64(a as i128 + b as i128)
}

/// Saturating difference.
pub fn fx_sub(a: i64, b: i64) -> (r: i64)
    ensures
        r == fsub(a, b),
{
    sat_i64(a as i128 - b as i128)
}

/// Saturating negation.
pub fn fx_neg(a: i64) -> (r: i64)
    ensures
        r == fneg(a),
{
    sat_i64(-(a as i128))
}

/// Fixed-point product.
pub fn fx_mul(a: i64, b: i64) -> (r: i64)
    ensures
        r == fmul(a, b),
{
    proof {
        lemma_mul_bounds(a as int, b as int, 0x8000000000000000, 0x8000000000000000);
    }
    let p: i128 = (a as i128) * (b as i128);
    let q: i128 = p / (SCALE as i128);
    proof {
        lemma_tdiv_bounds(p as int, SCALE as int);
        assert(q == tdiv(a * b, SCALE as int));
    }
    sat_i64(q)
}

/// Fixed-point quotient; the divisor must be positive (every quantity this
/// renderer divides by — a vector length, a sample count, a sphere radius —
/// is).
pub fn fx_div(a: i64, b: i64) -> (r: i64)
    requires
        b > 0,
    ensures
        r == fdiv(a, b),
{
    proof {
        lemma_mul_bounds(a as int, SCALE as int, 0x8000000000000000, 0x10000);
    }
    let p: i128 = (a as i128) * (SCALE as i128);
    let q: i128 = p / (b as i128);
    proof {
        lemma_tdiv_bounds(p as int, b as int);
        assert(q == tdiv(a * SCALE, b as int));
    }
    sat_i64(q)
}

/// Integer square root by bisection.
pub fn isqrt_u128(n: u128) -> (r: u128)
    requires
        n < 0x1000000000000000000000000,
    ensures
        is_isqrt(r as int, n as int),
        r == isqrt(n as int),
{
    let mut lo: u128 = 0;
    let mut hi: u128 = 0x1000000000000;
    while lo + 1 < hi
        invariant
            lo < hi <= 0x1000000000000,
            lo * lo <= n,
            n < hi * hi,
        decreases hi - lo,
    {
        let mid = lo + (hi - lo) / 2;
        proof {
            lemma_mul_bounds(mid as int, mid as int, 0x1000000000000, 0x1000000000000);
        }
        if mid * mid <= n {
            lo = mid;
        } else {
            hi = mid;
        }
    }
    proof {
        assert(is_isqrt(lo as int, n as int));
        lemma_isqrt_is(lo as int, n as int);
    }
    lo
}

/// Fixed-point square root of a non-negative scalar.
pub fn fx_sqrt(a: i64) -> (r: i64)
    requires
        a >= 0,
    ensures
        r == fsqrt(a),
{
    if a == 0 {
        0
    } else {
        proof {
            lemma_mul_bounds(a as int, SCALE as int, 0x8000000000000000, 0x10000);
        }
        let n: u128 = (a as u128) * (SCALE as u128);
        let s = isqrt_u128(n);
        proof {
            assert(is_isqrt(s as int, a * SCALE));
            assert((s as int) * (s as int) <= a * SCALE < 0x8000000000000000 * 0x10000);
            assert(s < 0x8000000000000000) by (nonlinear_arith)
                requires
                    (s as int) * (s as int) <= a * SCALE,
                    a * SCALE < 0x80000000000000000000,
            ;
        }
        sat_i64(s as i128)
    }
}

/// Saturating absolute value.
pub fn fx_abs(a: i64) -> (r: i64)
    ensures
        r == fabs(a),
{
    if a >= 0 {
        a
    } else {
        fx_neg(a)
    }
}

/// The smaller of two scalars.
pub fn fx_min(a: i64, b: i64) -> (r: i64)
    ensures
        r == fmin(a, b),
{
    if a <= b {
        a
    } else {
        b
    }
}

/// The larger of two scalars.
pub fn fx_max(a: i64, b: i64) -> (r: i64)
    ensures
        r == fmax(a, b),
{
    if a >= b {
        a
    } else {
        b
    }
}

} // verus!
