//! Fixed-point arithmetic helpers for the physics core.
//!
//! All game quantities are integers: lengths in subpixels (1000 per pixel),
//! velocities in subpixels per second, angles in milliradians, times in
//! milliseconds. The helpers here scale signed quantities by nonnegative
//! ratios (truncating toward zero, as the game's motion integration does),
//! take integer square roots, and evaluate an integer sine approximation.

use vstd::prelude::*;

verus! {

use vstd::arithmetic::div_mod::lemma_div_is_ordered;
use vstd::arithmetic::div_mod::lemma_div_is_ordered_by_denominator;
use vstd::arithmetic::div_mod::lemma_div_multiples_vanish;
use vstd::arithmetic::div_mod::lemma_div_nonincreasing;
use vstd::arithmetic::div_mod::lemma_div_pos_is_pos;
use vstd::arithmetic::mul::lemma_mul_inequality;
use vstd::math::abs;

/// `a` scaled by `num / den`, truncating toward zero.
///
/// For nonnegative `a` this is ordinary flooring division; for negative `a`
/// the magnitude is scaled and the sign restored, which is how the game's
/// motion steps treat leftward and upward velocities symmetrically.
pub open spec fn scale_trunc(a: int, num: int, den: int) -> int {
    if a >= 0 {
        (a * num) / den
    } else {
        -((-a * num) / den)
    }
}

/// The magnitude of a truncating scale is the scaled magnitude.
pub proof fn lemma_scale_trunc_abs(a: int, num: int, den: int)
    requires
        0 <= num,
        0 < den,
    ensures
        abs(scale_trunc(a, num, den)) == (abs(a) * num) / den,
        a >= 0 ==> scale_trunc(a, num, den) >= 0,
        a < 0 ==> scale_trunc(a, num, den) <= 0,
{
    if a >= 0 {
        lemma_mul_nonneg_div_nonneg(a, num, den);
    } else {
        lemma_mul_nonneg_div_nonneg(-a, num, den);
    }
}

/// A nonnegative product divided by a positive divisor is nonnegative.
pub proof fn lemma_mul_nonneg_div_nonneg(a: int, num: int, den: int)
    requires
        0 <= a,
        0 <= num,
        0 < den,
    ensures
        0 <= (a * num) / den,
        (a * num) / den <= a * num,
{
    vstd::arithmetic::mul::lemma_mul_nonnegative(a, num);
    lemma_div_pos_is_pos(a * num, den);
    lemma_div_nonincreasing(a * num, den);
}

/// Scaling by `num / den` with `num <= den` does not increase a
/// nonnegative value.
pub proof fn lemma_mul_div_le(x: int, num: int, den: int)
    requires
        0 <= x,
        0 <= num <= den,
        0 < den,
    ensures
        (x * num) / den <= x,
{
    lemma_mul_inequality(num, den, x);
    vstd::arithmetic::mul::lemma_mul_is_commutative(num, x);
    vstd::arithmetic::mul::lemma_mul_is_commutative(den, x);
    lemma_div_is_ordered(x * num, x * den, den);
    lemma_div_multiples_vanish(x, den);
}

/// Scaled division is monotone in the value being scaled.
pub proof fn lemma_mul_div_mono(x: int, y: int, num: int, den: int)
    requires
        0 <= x <= y,
        0 <= num,
        0 < den,
    ensures
        (x * num) / den <= (y * num) / den,
{
    lemma_mul_inequality(x, y, num);
    lemma_div_is_ordered(x * num, y * num, den);
}

/// Scaled division is antitone in the divisor.
pub proof fn lemma_mul_div_denominator_le(x: int, den1: int, den2: int)
    requires
        0 <= x,
        0 < den1 <= den2,
    ensures
        x / den2 <= x / den1,
{
    lemma_div_is_ordered_by_denominator(x, den1, den2);
}

/// Scale `a` by `num / den`, truncating toward zero.
pub fn scale_ratio(a: i64, num: i64, den: i64) -> (r: i64)
    requires
        0 <= num,
        0 < den,
        -i64::MAX <= a,
        a * num <= i64::MAX,
        -i64::MAX <= a * num,
    ensures
        r == scale_trunc(a as int, num as int, den as int),
{
    if a >= 0 {
        proof {
            lemma_mul_nonneg_div_nonneg(a as int, num as int, den as int);
        }
        let q: u64 = ((a as u64) * (num as u64)) / (den as u64);
        q as i64
    } else {
        proof {
            lemma_mul_nonneg_div_nonneg(-(a as int), num as int, den as int);
            vstd::arithmetic::mul::lemma_mul_unary_negation(a as int, num as int);
        }
        let q: u64 = (((-a) as u64) * (num as u64)) / (den as u64);
        -(q as i64)
    }
}

/// Negating a value keeps its square.
pub proof fn lemma_neg_square(a: int)
    ensures
        (-a) * (-a) == a * a,
{
    vstd::arithmetic::mul::lemma_mul_cancels_negatives(a, a);
}

/// The integer square root, as a recursively defined specification:
/// the largest `r` with `r * r <= n`.
pub open spec fn sqrt_floor(n: int) -> int
    decreases n,
{
    if n < 1 {
        0
    } else {
        let r = sqrt_floor(n - 1);
        if (r + 1) * (r + 1) <= n {
            r + 1
        } else {
            r
        }
    }
}

/// `sqrt_floor` brackets its argument between consecutive squares.
pub proof fn lemma_sqrt_floor_bounds(n: int)
    requires
        0 <= n,
    ensures
        0 <= sqrt_floor(n),
        sqrt_floor(n) * sqrt_floor(n) <= n,
        n < (sqrt_floor(n) + 1) * (sqrt_floor(n) + 1),
        sqrt_floor(n) <= n,
    decreases n,
{
    if n == 0 {
    } else {
        lemma_sqrt_floor_bounds(n - 1);
        let r = sqrt_floor(n - 1);
        assert(r * r <= n - 1);
        if (r + 1) * (r + 1) <= n {
            assert(sqrt_floor(n) == r + 1);
            assert(n < (r + 2) * (r + 2)) by (nonlinear_arith)
                requires
                    n - 1 < (r + 1) * (r + 1),
                    0 <= r,
            ;
        }
    }
}

/// Any value bracketed between consecutive squares is the integer
/// square root.
pub proof fn lemma_sqrt_floor_unique(n: int, r: int)
    requires
        0 <= n,
        0 <= r,
        r * r <= n,
        n < (r + 1) * (r + 1),
    ensures
        r == sqrt_floor(n),
{
    lemma_sqrt_floor_bounds(n);
    let s = sqrt_floor(n);
    assert(r == s) by (nonlinear_arith)
        requires
            0 <= r,
            0 <= s,
            r * r <= n,
            n < (r + 1) * (r + 1),
            s * s <= n,
            n < (s + 1) * (s + 1),
    ;
}

/// Integer square root by bisection.
pub fn isqrt(n: i64) -> (r: i64)
    requires
        0 <= n,
    ensures
        r == sqrt_floor(n as int),
        0 <= r,
        r * r <= n,
        n < (r + 1) * (r + 1),
{
    let mut lo: u64 = 0;
    let mut hi: u64 = 0x1_0000_0000;
    proof {
        assert((hi as int) * (hi as int) > n as int) by (nonlinear_arith)
            requires
                hi == 0x1_0000_0000,
                n <= i64::MAX,
        ;
    }
    while lo + 1 < hi
        invariant
            0 <= lo < hi <= 0x1_0000_0000,
            lo * lo <= n as int,
            (hi as int) * (hi as int) > n as int,
        decreases hi - lo,
    {
        let mid: u64 = lo + (hi - lo) / 2;
        proof {
            assert((mid as int) * (mid as int) < 0x1_0000_0000_0000_0000) by (nonlinear_arith)
                requires
                    mid < 0x1_0000_0000,
            ;
        }
        if mid * mid <= n as u64 {
            lo = mid;
        } else {
            hi = mid;
        }
    }
    proof {
        assert((lo as int) * (lo as int) <= n as int);
        assert(n < (lo + 1) * (lo + 1));
        lemma_sqrt_floor_unique(n as int, lo as int);
        assert(lo <= 0x1_0000_0000);
    }
    lo as i64
}

/// A cubic approximation of the sine, in thousandths, for angles given
/// in milliradians: `sin_milli(x) = x - x^3 / 6_000_000`.
pub open spec fn sin_milli_spec(x: int) -> int {
    x - (x * x * x) / 6_000_000
}

/// On the angles the game uses (at most 1571 mrad, a right angle), the
/// sine approximation stays within [0, 1000].
pub proof fn lemma_sin_milli_range(x: int)
    requires
        0 <= x <= 1571,
    ensures
        0 <= sin_milli_spec(x) <= 1000,
        sin_milli_spec(x) <= x,
{
    let c = x * x * x;
    assert(0 <= c && c <= 6_000_000 * x) by (nonlinear_arith)
        requires
            0 <= x <= 1571,
            c == x * x * x,
    ;
    lemma_mul_nonneg_div_nonneg(c, 1, 6_000_000);
    vstd::arithmetic::mul::lemma_mul_basics(c);
    lemma_div_pos_is_pos(c, 6_000_000);
    // Lower bound: the cubic term never exceeds x itself here.
    assert(c / 6_000_000 <= (6_000_000 * x) / 6_000_000) by {
        lemma_div_is_ordered(c, 6_000_000 * x, 6_000_000);
    };
    assert((6_000_000 * x) / 6_000_000 == x) by {
        vstd::arithmetic::mul::lemma_mul_is_commutative(6_000_000, x);
        lemma_div_multiples_vanish(x, 6_000_000);
    };
    // Upper bound: x - x^3/6e6 <= 1000 on this range.
    if x > 1000 {
        // (x - 1415)^2 * (x + 2830) >= 0 expands to
        // x^3 + 2 * 1415^3 >= 3 * 1415^2 * x, and 3 * 1415^2 >= 6e6,
        // 2 * 1415^3 <= 6e9, so x^3 >= 6e6 * (x - 1000).
        assert(c >= 6_000_000 * (x - 1000)) by (nonlinear_arith)
            requires
                1000 < x <= 1571,
                c == x * x * x,
        ;
        assert(c / 6_000_000 >= (6_000_000 * (x - 1000)) / 6_000_000) by {
            lemma_div_is_ordered(6_000_000 * (x - 1000), c, 6_000_000);
        };
        assert((6_000_000 * (x - 1000)) / 6_000_000 == x - 1000) by {
            vstd::arithmetic::mul::lemma_mul_is_commutative(6_000_000, x - 1000);
            lemma_div_multiples_vanish(x - 1000, 6_000_000);
        };
    }
}

/// The sine approximation, executable.
pub fn sin_milli(x: i64) -> (r: i64)
    requires
        0 <= x <= 1571,
    ensures
        r == sin_milli_spec(x as int),
        0 <= r <= 1000,
{
    proof {
        lemma_sin_milli_range(x as int);
        assert((x as int) * (x as int) <= 1571 * 1571 && (x as int) * (x as int) * (x as int)
            <= 1571 * 1571 * 1571) by (nonlinear_arith)
            requires
                0 <= x <= 1571,
        ;
    }
    let cube: u64 = (x as u64) * (x as u64) * (x as u64);
    x - ((cube / 6_000_000) as i64)
}

} // verus!
