//! Fixed-point scalar arithmetic: truncating division and the ceiling
//! integer square root, with the lemmas the force model needs about them.

use vstd::arithmetic::div_mod::{
    lemma_div_by_multiple, lemma_div_is_ordered, lemma_div_pos_is_pos,
    lemma_fundamental_div_mod, lemma_mod_division_less_than_divisor,
};
use vstd::prelude::*;

verus! {

/// Fixed-point scale: every world quantity (coordinate, velocity component,
/// gain, duration) is an integer count of `1/SCALE` world units.
pub const SCALE: i64 = 1000;

/// Truncating division (quotient rounded toward zero), meant for positive
/// divisors. Executable signed division in Rust truncates, while `/` on `int`
/// is Euclidean; contracts use this function to say exactly what the
/// executable code computes.
pub open spec fn tdiv(a: int, b: int) -> int {
    if a >= 0 {
        a / b
    } else {
        -((-a) / b)
    }
}

/// The quotient of `a` by `b` is no larger in magnitude than `c` whenever
/// `a` is no larger in magnitude than `c * b`.
pub proof fn lemma_tdiv_bound(a: int, b: int, c: int)
    requires
        b >= 1,
        c >= 0,
        -(c * b) <= a <= c * b,
    ensures
        -c <= tdiv(a, b) <= c,
{
    if a >= 0 {
        lemma_div_pos_is_pos(a, b);
        lemma_div_is_ordered(a, c * b, b);
        lemma_div_by_multiple(c, b);
    } else {
        lemma_div_pos_is_pos(-a, b);
        lemma_div_is_ordered(-a, c * b, b);
        lemma_div_by_multiple(c, b);
    }
}

/// Multiplying a truncated quotient back by the divisor never overshoots the
/// dividend (and never crosses zero).
pub proof fn lemma_tdiv_times_divisor(a: int, b: int)
    requires
        b >= 1,
    ensures
        a >= 0 ==> 0 <= tdiv(a, b) * b <= a,
        a < 0 ==> a <= tdiv(a, b) * b <= 0,
{
    if a >= 0 {
        lemma_fundamental_div_mod(a, b);
        lemma_mod_division_less_than_divisor(a, b);
        lemma_div_pos_is_pos(a, b);
        let q = a / b;
        assert(q * b == b * q) by (nonlinear_arith);
        assert(q * b >= 0) by (nonlinear_arith)
            requires q >= 0, b >= 1;
    } else {
        lemma_fundamental_div_mod(-a, b);
        lemma_mod_division_less_than_divisor(-a, b);
        lemma_div_pos_is_pos(-a, b);
        let q = (-a) / b;
        assert(q * b == b * q) by (nonlinear_arith);
        assert(q * b >= 0) by (nonlinear_arith)
            requires q >= 0, b >= 1;
        assert(tdiv(a, b) * b == -(q * b)) by (nonlinear_arith)
            requires tdiv(a, b) == -q;
    }
}

/// Multiplying a truncated quotient back by the divisor lands within one
/// divisor of the dividend.
pub proof fn lemma_tdiv_remainder(a: int, b: int)
    requires
        b >= 1,
    ensures
        -b < tdiv(a, b) * b - a < b,
{
    if a >= 0 {
        lemma_fundamental_div_mod(a, b);
        lemma_mod_division_less_than_divisor(a, b);
        let q = a / b;
        assert(q * b == b * q) by (nonlinear_arith);
    } else {
        lemma_fundamental_div_mod(-a, b);
        lemma_mod_division_less_than_divisor(-a, b);
        let q = (-a) / b;
        assert(q * b == b * q) by (nonlinear_arith);
        assert(tdiv(a, b) * b == -(q * b)) by (nonlinear_arith)
            requires tdiv(a, b) == -q;
    }
}

/// The magnitude of the quotient never exceeds the magnitude bound of the
/// dividend when the divisor is at least 1.
pub proof fn lemma_tdiv_bound_div_ge_one(a: int, b: int, c: int)
    requires
        b >= 1,
        c >= 0,
        -c <= a <= c,
    ensures
        -c <= tdiv(a, b) <= c,
{
    assert(-(c * b) <= a <= c * b) by (nonlinear_arith)
        requires b >= 1, c >= 0, -c <= a <= c;
    lemma_tdiv_bound(a, b, c);
}

/// Magnitude bound of a product from magnitude bounds of its factors.
pub proof fn lemma_mul_abs_bound(a: int, b: int, ca: int, cb: int)
    requires
        -ca <= a <= ca,
        -cb <= b <= cb,
    ensures
        -(ca * cb) <= a * b <= ca * cb,
        ca * cb == cb * ca,
{
    assert(-(ca * cb) <= a * b <= ca * cb && ca * cb == cb * ca) by (nonlinear_arith)
        requires -ca <= a <= ca, -cb <= b <= cb;
}

/// A value whose square is bounded by a square is bounded by the root.
pub proof fn lemma_abs_le_of_sq_le(a: int, m: int)
    requires
        a * a <= m * m,
        m >= 0,
    ensures
        -m <= a <= m,
{
    assert(-m <= a <= m) by (nonlinear_arith)
        requires a * a <= m * m, m >= 0;
}

/// `r` is the ceiling square root of `x`: the least nonnegative integer whose
/// square is at least `x` (zero when `x <= 0`).
pub open spec fn is_ceil_sqrt(x: int, r: int) -> bool {
    &&& r >= 0
    &&& r * r >= x
    &&& (r == 0 || (r - 1) * (r - 1) < x)
}

/// The ceiling square root of `x`. Rounding the square root up (rather than
/// down) is what lets the speed limit hold exactly: rescaling a vector by
/// `max_speed / ceil_sqrt(|v|^2)` can only shorten it.
pub open spec fn ceil_sqrt(x: int) -> int {
    choose|r: int| is_ceil_sqrt(x, r)
}

pub proof fn lemma_ceil_sqrt_exists(x: int)
    ensures
        exists|r: int| is_ceil_sqrt(x, r),
    decreases x,
{
    if x <= 0 {
        assert(is_ceil_sqrt(x, 0));
    } else {
        lemma_ceil_sqrt_exists(x - 1);
        let p = choose|r: int| #[trigger] is_ceil_sqrt(x - 1, r);
        if p * p >= x {
            assert(is_ceil_sqrt(x, p));
        } else {
            assert(p * p == x - 1);
            assert((p + 1) * (p + 1) >= x) by (nonlinear_arith)
                requires p >= 0, p * p == x - 1;
            assert(is_ceil_sqrt(x, p + 1));
        }
    }
}

pub proof fn lemma_ceil_sqrt_unique(x: int, r1: int, r2: int)
    requires
        is_ceil_sqrt(x, r1),
        is_ceil_sqrt(x, r2),
    ensures
        r1 == r2,
{
    if r1 < r2 {
        assert(r1 * r1 <= (r2 - 1) * (r2 - 1)) by (nonlinear_arith)
            requires 0 <= r1 <= r2 - 1;
    }
    if r2 < r1 {
        assert(r2 * r2 <= (r1 - 1) * (r1 - 1)) by (nonlinear_arith)
            requires 0 <= r2 <= r1 - 1;
    }
}

/// `ceil_sqrt(x)` satisfies its defining property.
pub proof fn lemma_ceil_sqrt(x: int)
    ensures
        is_ceil_sqrt(x, ceil_sqrt(x)),
{
    lemma_ceil_sqrt_exists(x);
}

/// A value whose square is at most `x` is bounded by the ceiling square root.
pub proof fn lemma_abs_le_ceil_sqrt(a: int, x: int)
    requires
        a * a <= x,
    ensures
        -ceil_sqrt(x) <= a <= ceil_sqrt(x),
{
    lemma_ceil_sqrt(x);
    let r = ceil_sqrt(x);
    if a > r || a < -r {
        assert(a * a > r * r) by (nonlinear_arith)
            requires r >= 0, a > r || a < -r;
    }
}

/// The ceiling square root of a perfect square is its root.
pub proof fn lemma_ceil_sqrt_exact(a: int)
    requires
        a >= 0,
    ensures
        ceil_sqrt(a * a) == a,
{
    assert(is_ceil_sqrt(a * a, a)) by (nonlinear_arith)
        requires a >= 0;
    lemma_ceil_sqrt(a * a);
    lemma_ceil_sqrt_unique(a * a, a, ceil_sqrt(a * a));
}

/// A positive value has a positive ceiling square root.
pub proof fn lemma_ceil_sqrt_pos(x: int)
    requires
        x >= 1,
    ensures
        ceil_sqrt(x) >= 1,
{
    lemma_ceil_sqrt(x);
}

/// Truncating division of `i128` values, implemented over unsigned division
/// so that the rounding direction is explicit.
pub fn tdiv_i128(a: i128, b: i128) -> (r: i128)
    requires
        b >= 1,
        a > i128::MIN,
    ensures
        r == tdiv(a as int, b as int),
{
    if a >= 0 {
        let q: u128 = (a as u128) / (b as u128);
        proof {
            lemma_div_pos_is_pos(a as int, b as int);
            lemma_div_is_ordered(a as int, a as int, b as int);
            assert(q <= a as u128) by {
                vstd::arithmetic::div_mod::lemma_div_nonincreasing(a as int, b as int);
            }
        }
        q as i128
    } else {
        let n: i128 = -a;
        let q: u128 = (n as u128) / (b as u128);
        proof {
            lemma_div_pos_is_pos(n as int, b as int);
            assert(q <= n as u128) by {
                vstd::arithmetic::div_mod::lemma_div_nonincreasing(n as int, b as int);
            }
        }
        -(q as i128)
    }
}

/// The ceiling integer square root, by binary search.
pub fn ceil_isqrt_u128(x: u128) -> (r: u128)
    requires
        x as int <= 0x4000000000000000 * 0x4000000000000000,
    ensures
        is_ceil_sqrt(x as int, r as int),
{
    if x == 0 {
        return 0;
    }
    let mut lo: u128 = 0;
    let mut hi: u128 = 0x4000000000000000;
    proof {
        assert(hi * hi >= x);
    }
    while lo + 1 < hi
        invariant
            lo < hi,
            hi <= 0x4000000000000000,
            (lo as int) * (lo as int) < x as int,
            (hi as int) * (hi as int) >= x as int,
        decreases hi - lo,
    {
        let mid: u128 = lo + (hi - lo) / 2;
        proof {
            assert(lo < mid < hi);
            assert(mid * mid < 0x4000000000000000 * 0x4000000000000000) by (nonlinear_arith)
                requires 0 <= mid < 0x4000000000000000;
        }
        if mid * mid >= x {
            hi = mid;
        } else {
            lo = mid;
        }
    }
    proof {
        assert(lo + 1 == hi);
        assert(is_ceil_sqrt(x as int, hi as int));
    }
    hi
}

/// The ceiling integer square root of a signed value (zero when negative).
pub fn ceil_isqrt_i128(x: i128) -> (r: i128)
    requires
        x as int <= 0x4000000000000000 * 0x4000000000000000,
    ensures
        r == ceil_sqrt(x as int),
        is_ceil_sqrt(x as int, r as int),
{
    proof {
        lemma_ceil_sqrt(x as int);
    }
    if x <= 0 {
        proof {
            lemma_ceil_sqrt_unique(x as int, 0, ceil_sqrt(x as int));
        }
        0
    } else {
        let r = ceil_isqrt_u128(x as u128);
        proof {
            assert(x as u128 as int == x as int);
            assert(r as int <= 0x4000000000000000) by {
                if r as int > 0x4000000000000000 {
                    assert((r - 1) * (r - 1) >= 0x4000000000000000 * 0x4000000000000000)
                        by (nonlinear_arith)
                        requires r as int - 1 >= 0x4000000000000000;
                }
            }
            lemma_ceil_sqrt_unique(x as int, r as int, ceil_sqrt(x as int));
        }
        r as i128
    }
}

} // verus!
