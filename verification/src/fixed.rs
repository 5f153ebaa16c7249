//! Fixed-point scalar arithmetic: the global scale, truncating division as
//! Rust's signed `/` computes it, and an integer square root.

use vstd::arithmetic::div_mod::{
    lemma_div_is_ordered, lemma_div_multiples_vanish, lemma_div_nonincreasing,
    lemma_div_pos_is_pos, lemma_remainder_lower,
};
use vstd::prelude::*;

verus! {

/// Number of fixed-point sub-units per length unit.
pub const SCALE: i64 = 1_000_000;

/// Absolute value of a mathematical integer.
pub open spec fn iabs(a: int) -> int {
    if a < 0 {
        -a
    } else {
        a
    }
}

/// Division rounding toward zero, as Rust's `/` behaves on signed integers
/// with a positive divisor.
pub open spec fn tz_div(a: int, d: int) -> int {
    if a >= 0 {
        a / d
    } else {
        -((-a) / d)
    }
}

/// The magnitude of a quotient toward zero is the quotient of the
/// magnitudes, and the quotient keeps the dividend's sign.
pub proof fn lemma_tz_div_abs(a: int, d: int)
    requires
        d > 0,
    ensures
        iabs(tz_div(a, d)) == iabs(a) / d,
        a >= 0 ==> tz_div(a, d) >= 0,
        a <= 0 ==> tz_div(a, d) <= 0,
        iabs(tz_div(a, d)) <= iabs(a),
        d * iabs(tz_div(a, d)) <= iabs(a),
{
    if a >= 0 {
        lemma_div_pos_is_pos(a, d);
    } else {
        lemma_div_pos_is_pos(-a, d);
    }
    lemma_div_nonincreasing(iabs(a), d);
    lemma_remainder_lower(iabs(a), d);
    assert(iabs(a) / d * d == d * (iabs(a) / d)) by (nonlinear_arith);
}

/// Quotients toward zero are monotone in magnitude.
pub proof fn lemma_tz_div_ordered(a: int, b: int, d: int)
    requires
        d > 0,
        iabs(a) <= iabs(b),
    ensures
        iabs(tz_div(a, d)) <= iabs(tz_div(b, d)),
{
    lemma_tz_div_abs(a, d);
    lemma_tz_div_abs(b, d);
    lemma_div_is_ordered(iabs(a), iabs(b), d);
}

/// A bound on the dividend gives a bound on the quotient toward zero.
pub proof fn lemma_tz_div_le(a: int, d: int, ab: int)
    requires
        d > 0,
        iabs(a) <= ab,
    ensures
        iabs(tz_div(a, d)) <= ab / d,
{
    lemma_tz_div_abs(a, d);
    lemma_div_is_ordered(iabs(a), ab, d);
}

/// Dividing an exact multiple of `d` toward zero recovers the factor.
pub proof fn lemma_tz_div_cancel(x: int, d: int)
    requires
        d > 0,
    ensures
        tz_div(x * d, d) == x,
{
    if x >= 0 {
        assert(x * d >= 0) by (nonlinear_arith)
            requires
                x >= 0 && d > 0,
        ;
        assert(x * d == d * x) by (nonlinear_arith);
        lemma_div_multiples_vanish(x, d);
    } else {
        assert(x * d < 0) by (nonlinear_arith)
            requires
                x < 0 && d > 0,
        ;
        assert(-(x * d) == d * (-x)) by (nonlinear_arith);
        lemma_div_multiples_vanish(-x, d);
    }
}

/// `x * k / d` with the quotient rounded toward zero, the shape of every
/// scaled-coordinate computation in this crate.
pub fn mul_div(x: i64, k: i64, d: i64) -> (r: i64)
    requires
        d > 0,
        -(i64::MAX as int) <= x * k <= i64::MAX as int,
    ensures
        r == tz_div(x * k, d as int),
        iabs(r as int) <= iabs(x * k),
{
    proof {
        lemma_tz_div_abs(x * k, d as int);
    }
    (x * k) / d
}

/// Floor of the square root of `n` (0 for negative `n`).
pub open spec fn sqrt_floor(n: int) -> int
    decreases n,
{
    if n <= 0 {
        0
    } else {
        let r = sqrt_floor(n - 1);
        if (r + 1) * (r + 1) <= n {
            r + 1
        } else {
            r
        }
    }
}

/// `r` is the floor of the square root of `n`.
pub open spec fn is_sqrt_floor(n: int, r: int) -> bool {
    0 <= r && r * r <= n && n < (r + 1) * (r + 1)
}

/// `sqrt_floor` meets its characterization on every non-negative input.
pub proof fn lemma_sqrt_floor_correct(n: int)
    requires
        n >= 0,
    ensures
        is_sqrt_floor(n, sqrt_floor(n)),
    decreases n,
{
    if n == 0 {
        assert(sqrt_floor(0) == 0);
    } else {
        lemma_sqrt_floor_correct(n - 1);
        let r = sqrt_floor(n - 1);
        if (r + 1) * (r + 1) <= n {
            assert(n < (r + 1) * (r + 1) + 1 + 2 * (r + 1)) by {
                assert(n - 1 < (r + 1) * (r + 1));
            }
            assert((r + 2) * (r + 2) == (r + 1) * (r + 1) + 1 + 2 * (r + 1)) by (nonlinear_arith);
        }
    }
}

/// The floor square root is unique.
pub proof fn lemma_sqrt_floor_unique(n: int, r1: int, r2: int)
    requires
        is_sqrt_floor(n, r1),
        is_sqrt_floor(n, r2),
    ensures
        r1 == r2,
{
    if r1 < r2 {
        assert((r1 + 1) * (r1 + 1) <= r2 * r2) by (nonlinear_arith)
            requires
                0 <= r1 && r1 + 1 <= r2,
        ;
    }
    if r2 < r1 {
        assert((r2 + 1) * (r2 + 1) <= r1 * r1) by (nonlinear_arith)
            requires
                0 <= r2 && r2 + 1 <= r1,
        ;
    }
}

/// Integer square root by bisection.
pub fn int_sqrt(n: i64) -> (r: i64)
    requires
        0 <= n <= 8_000_000_000_000_000_000,
    ensures
        is_sqrt_floor(n as int, r as int),
        r == sqrt_floor(n as int),
{
    let mut lo: i64 = 0;
    let mut hi: i64 = 3_000_000_000;
    assert(n < hi * hi) by (nonlinear_arith)
        requires
            n <= 8_000_000_000_000_000_000 && hi == 3_000_000_000,
    ;
    while lo + 1 < hi
        invariant
            0 <= lo < hi <= 3_000_000_000,
            lo * lo <= n,
            n < hi * hi,
        decreases hi - lo,
    {
        let mid = lo + (hi - lo) / 2;
        assert(lo < mid < hi);
        assert(mid * mid <= 3_000_000_000i64 * 3_000_000_000) by (nonlinear_arith)
            requires
                0 <= mid <= 3_000_000_000,
        ;
        if mid * mid <= n {
            lo = mid;
        } else {
            hi = mid;
        }
    }
    proof {
        lemma_sqrt_floor_correct(n as int);
        lemma_sqrt_floor_unique(n as int, lo as int, sqrt_floor(n as int));
    }
    lo
}

} // verus!
