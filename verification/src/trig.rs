//! Fixed-point trigonometry on angles measured in micro-degrees.
//!
//! The sine is computed with the classical rational approximation
//! `sin(x deg) ~= 4 x (180 - x) / (40500 - x (180 - x))` on `[0, 180]`
//! degrees, which is exact at 0, 30, 90, 150 and 180 degrees and accurate to
//! about 2e-3 elsewhere — far below the resolution the solar calculations
//! need. Values are scaled by `1_000_000`: a result of `1_000_000` means 1.0.
//!
//! The arc cosine is computed by bisecting the cosine, which needs no
//! monotonicity assumption: the loop only maintains that the cosine at the
//! lower end is at least the target and at the upper end at most the target.

use vstd::prelude::*;

verus! {

use vstd::arithmetic::div_mod::{
    lemma_fundamental_div_mod,
    lemma_div_is_ordered,
    lemma_div_pos_is_pos,
    lemma_div_multiples_vanish,
};

/// The product `x * (180e6 - x)` that drives the sine approximation.
pub open spec fn spec_sin_p(x: int) -> int {
    x * (180_000_000 - x)
}

/// Scaled sine of `x` micro-degrees, for `x` in `[0, 180e6]`.
pub open spec fn spec_sin_half(x: int) -> int {
    4 * spec_sin_p(x) * 1_000_000 / (40_500_000_000_000_000 - spec_sin_p(x))
}

/// Scaled sine for `x` in `[-180e6, 180e6]`, using the odd symmetry.
pub open spec fn spec_sin_signed(x: int) -> int {
    if x >= 0 {
        spec_sin_half(x)
    } else {
        -spec_sin_half(-x)
    }
}

/// Scaled sine for `x` in `[0, 360e6)`.
pub open spec fn spec_sin_full(x: int) -> int {
    if x <= 180_000_000 {
        spec_sin_half(x)
    } else {
        -spec_sin_half(x - 180_000_000)
    }
}

/// Scaled cosine of `x` micro-degrees, for `x` in `[0, 180e6]`.
pub open spec fn spec_cos_half(x: int) -> int {
    if x <= 90_000_000 {
        spec_sin_half(x + 90_000_000)
    } else {
        -spec_sin_half(x - 90_000_000)
    }
}

proof fn lemma_p_bounds(x: int)
    requires
        0 <= x <= 180_000_000,
    ensures
        0 <= spec_sin_p(x) <= 8_100_000_000_000_000,
{
    assert(0 <= x * (180_000_000 - x) <= 8_100_000_000_000_000) by (nonlinear_arith)
        requires
            0 <= x <= 180_000_000,
    ;
}

/// The sine approximation stays within `[0, 1]` on the first half turn.
pub proof fn lemma_sin_half_bounds(x: int)
    requires
        0 <= x <= 180_000_000,
    ensures
        0 <= spec_sin_half(x) <= 1_000_000,
{
    lemma_p_bounds(x);
    let p = spec_sin_p(x);
    let num = 4 * p * 1_000_000;
    let den = 40_500_000_000_000_000 - p;
    lemma_div_pos_is_pos(num, den);
    assert(num <= den * 1_000_000);
    lemma_div_is_ordered(num, den * 1_000_000, den);
    lemma_div_multiples_vanish(1_000_000, den);
}

/// If the quadratic product at `a` already clears the threshold `t`, then the
/// sine is at least `t` everywhere on `[a, 180e6 - a]`.
pub proof fn lemma_sin_half_at_least(x: int, a: int, t: int)
    requires
        0 <= a <= x <= 180_000_000 - a,
        0 <= t,
        4 * spec_sin_p(a) * 1_000_000 >= t * (40_500_000_000_000_000 - spec_sin_p(a)),
    ensures
        spec_sin_half(x) >= t,
{
    lemma_p_bounds(x);
    let pa = spec_sin_p(a);
    let p = spec_sin_p(x);
    assert(p >= pa) by (nonlinear_arith)
        requires
            0 <= a <= x <= 180_000_000 - a,
            p == x * (180_000_000 - x),
            pa == a * (180_000_000 - a),
    ;
    let num = 4 * p * 1_000_000;
    let den = 40_500_000_000_000_000 - p;
    assert(num >= den * t) by (nonlinear_arith)
        requires
            p >= pa,
            0 <= t,
            num == 4 * p * 1_000_000,
            den == 40_500_000_000_000_000 - p,
            4 * pa * 1_000_000 >= t * (40_500_000_000_000_000 - pa),
    ;
    lemma_p_bounds(x);
    lemma_div_is_ordered(den * t, num, den);
    lemma_div_multiples_vanish(t, den);
}

/// The scaled sine reaches 1.0 only at exactly 90 degrees.
pub proof fn lemma_sin_half_one_only_at_90(x: int)
    requires
        0 <= x <= 180_000_000,
        spec_sin_half(x) >= 1_000_000,
    ensures
        x == 90_000_000,
{
    lemma_p_bounds(x);
    let p = spec_sin_p(x);
    let num = 4 * p * 1_000_000;
    let den = 40_500_000_000_000_000 - p;
    let q = num / den;
    lemma_fundamental_div_mod(num, den);
    vstd::arithmetic::div_mod::lemma_mod_division_less_than_divisor(num, den);
    assert(num >= den * 1_000_000) by (nonlinear_arith)
        requires
            num == den * q + num % den,
            num % den >= 0,
            q >= 1_000_000,
            den > 0,
    ;
    assert(p >= 8_100_000_000_000_000);
    assert(x == 90_000_000) by (nonlinear_arith)
        requires
            p == x * (180_000_000 - x),
            p >= 8_100_000_000_000_000,
            0 <= x <= 180_000_000,
    ;
}

/// Close to zero degrees the cosine stays near 1: at most 18 degrees away it
/// is still at least 0.95.
pub proof fn lemma_cos_near_zero(h: int)
    requires
        0 <= h <= 18_000_000,
    ensures
        spec_cos_half(h) >= 950_000,
{
    lemma_sin_half_at_least(h + 90_000_000, 72_000_000, 950_000);
}

/// The scaled cosine reaches -1.0 only at exactly 180 degrees.
pub proof fn lemma_cos_min_only_at_180(h: int)
    requires
        0 <= h <= 180_000_000,
        spec_cos_half(h) <= -1_000_000,
    ensures
        h == 180_000_000,
{
    if h <= 90_000_000 {
        lemma_sin_half_bounds(h + 90_000_000);
        assert(false);
    } else {
        lemma_sin_half_one_only_at_90(h - 90_000_000);
    }
}

/// Scaled sine on `[0, 180e6]` micro-degrees.
pub fn sin_half(x: i64) -> (r: i64)
    requires
        0 <= x <= 180_000_000,
    ensures
        r == spec_sin_half(x as int),
        0 <= r <= 1_000_000,
{
    proof {
        lemma_p_bounds(x as int);
        lemma_sin_half_bounds(x as int);
    }
    let p: i64 = x * (180_000_000 - x);
    let num: u128 = 4 * (p as u128) * 1_000_000;
    let den: u128 = (40_500_000_000_000_000 - p) as u128;
    let q: u128 = num / den;
    q as i64
}

/// Scaled sine on `[-180e6, 180e6]` micro-degrees.
pub fn sin_signed(x: i64) -> (r: i64)
    requires
        -180_000_000 <= x <= 180_000_000,
    ensures
        r == spec_sin_signed(x as int),
        -1_000_000 <= r <= 1_000_000,
{
    if x >= 0 {
        sin_half(x)
    } else {
        proof {
            lemma_sin_half_bounds(-(x as int));
        }
        -sin_half(-x)
    }
}

/// Scaled sine on `[0, 360e6)` micro-degrees.
pub fn sin_full(x: i64) -> (r: i64)
    requires
        0 <= x < 360_000_000,
    ensures
        r == spec_sin_full(x as int),
        -1_000_000 <= r <= 1_000_000,
{
    if x <= 180_000_000 {
        sin_half(x)
    } else {
        proof {
            lemma_sin_half_bounds(x - 180_000_000);
        }
        -sin_half(x - 180_000_000)
    }
}

/// Scaled cosine on `[0, 180e6]` micro-degrees.
pub fn cos_half(x: i64) -> (r: i64)
    requires
        0 <= x <= 180_000_000,
    ensures
        r == spec_cos_half(x as int),
        -1_000_000 <= r <= 1_000_000,
{
    if x <= 90_000_000 {
        sin_half(x + 90_000_000)
    } else {
        proof {
            lemma_sin_half_bounds(x as int - 90_000_000);
        }
        -sin_half(x - 90_000_000)
    }
}

/// The cosine at zero is exactly 1.0 and at 180 degrees exactly -1.0.
pub proof fn lemma_cos_ends()
    ensures
        spec_cos_half(0) == 1_000_000,
        spec_cos_half(180_000_000) == -1_000_000,
{
    assert(spec_sin_p(90_000_000) == 8_100_000_000_000_000);
    let num = 4 * 8_100_000_000_000_000int * 1_000_000;
    let den = 40_500_000_000_000_000int - 8_100_000_000_000_000;
    assert(num == den * 1_000_000);
    lemma_div_multiples_vanish(1_000_000, den);
    assert(spec_sin_half(90_000_000) == 1_000_000);
}

/// The bisection step for the arc cosine, written as a specification so the
/// executable search below is pinned to exactly one result.
pub open spec fn spec_acos_iter(c: int, lo: int, hi: int) -> int
    decreases hi - lo,
{
    if hi - lo <= 1000 {
        lo
    } else {
        let mid = lo + (hi - lo) / 2;
        if spec_cos_half(mid) >= c {
            spec_acos_iter(c, mid, hi)
        } else {
            spec_acos_iter(c, lo, mid)
        }
    }
}

/// The angle in micro-degrees the bisection settles on for cosine `c`.
pub open spec fn spec_acos(c: int) -> int {
    spec_acos_iter(c, 0, 180_000_000)
}

/// Arc cosine by bisection: returns an angle in micro-degrees whose cosine is
/// at least `c`, while some angle at most 0.001 degrees above it has cosine
/// at most `c`. The result brackets the true arc cosine of `c` to within the
/// bisection tolerance.
pub fn acos_half(c: i64) -> (r: i64)
    requires
        -1_000_000 <= c <= 1_000_000,
    ensures
        r == spec_acos(c as int),
        0 <= r < 180_000_000,
        spec_cos_half(r as int) >= c,
        exists|h: int|
            r < h <= r + 1000 && h <= 180_000_000 && spec_cos_half(h) <= c,
{
    let mut lo: i64 = 0;
    let mut hi: i64 = 180_000_000;
    proof {
        lemma_cos_ends();
    }
    while hi - lo > 1000
        invariant
            0 <= lo < hi <= 180_000_000,
            spec_cos_half(lo as int) >= c,
            spec_cos_half(hi as int) <= c,
            spec_acos_iter(c as int, lo as int, hi as int) == spec_acos(c as int),
        decreases hi - lo,
    {
        let mid: i64 = lo + (hi - lo) / 2;
        if cos_half(mid) >= c {
            lo = mid;
        } else {
            hi = mid;
        }
    }
    proof {
        assert(lo < hi <= lo + 1000 && hi <= 180_000_000 && spec_cos_half(hi as int) <= c);
    }
    lo
}

proof fn lemma_acos_iter_props(c: int, lo: int, hi: int)
    requires
        0 <= lo < hi <= 180_000_000,
        spec_cos_half(lo) >= c,
        spec_cos_half(hi) <= c,
    ensures
        lo <= spec_acos_iter(c, lo, hi) < hi,
        spec_cos_half(spec_acos_iter(c, lo, hi)) >= c,
        exists|h: int|
            spec_acos_iter(c, lo, hi) < h <= spec_acos_iter(c, lo, hi) + 1000 && h <= 180_000_000
                && spec_cos_half(h) <= c,
    decreases hi - lo,
{
    if hi - lo <= 1000 {
        assert(spec_acos_iter(c, lo, hi) == lo);
        assert(lo < hi <= lo + 1000 && hi <= 180_000_000 && spec_cos_half(hi) <= c);
    } else {
        let mid = lo + (hi - lo) / 2;
        if spec_cos_half(mid) >= c {
            lemma_acos_iter_props(c, mid, hi);
        } else {
            lemma_acos_iter_props(c, lo, mid);
        }
    }
}

/// The bisection result for any admissible cosine value stays inside the
/// half turn, its own cosine does not undershoot the target, and an angle at
/// most the tolerance above it has cosine at most the target.
pub proof fn lemma_acos_bracket(c: int)
    requires
        -1_000_000 <= c <= 1_000_000,
    ensures
        0 <= spec_acos(c) < 180_000_000,
        spec_cos_half(spec_acos(c)) >= c,
        exists|h: int|
            spec_acos(c) < h <= spec_acos(c) + 1000 && h <= 180_000_000 && spec_cos_half(h) <= c,
{
    lemma_cos_ends();
    lemma_acos_iter_props(c, 0, 180_000_000);
}

/// The full-turn sine stays within `[-1, 1]`.
pub proof fn lemma_sin_full_bounds(x: int)
    requires
        0 <= x < 360_000_000,
    ensures
        -1_000_000 <= spec_sin_full(x) <= 1_000_000,
{
    if x <= 180_000_000 {
        lemma_sin_half_bounds(x);
    } else {
        lemma_sin_half_bounds(x - 180_000_000);
    }
}

/// The signed sine stays within `[-1, 1]`.
pub proof fn lemma_sin_signed_bounds(x: int)
    requires
        -180_000_000 <= x <= 180_000_000,
    ensures
        -1_000_000 <= spec_sin_signed(x) <= 1_000_000,
{
    if x >= 0 {
        lemma_sin_half_bounds(x);
    } else {
        lemma_sin_half_bounds(-x);
    }
}

/// When the cosine target is well above -1 the bisection cannot stop near
/// zero: any target at most 0.9 forces an angle of at least about 18 degrees.
pub proof fn lemma_acos_not_small(c: int, r: int)
    requires
        c <= 900_000,
        r == spec_acos(c),
        0 <= r < 180_000_000,
        exists|h: int| r < h <= r + 1000 && h <= 180_000_000 && spec_cos_half(h) <= c,
    ensures
        r >= 17_999_001,
{
    let h = choose|h: int| r < h <= r + 1000 && h <= 180_000_000 && spec_cos_half(h) <= c;
    if h <= 18_000_000 {
        lemma_cos_near_zero(h);
        assert(false);
    }
}

/// When the clamped cosine is exactly -1 the bisection runs to the far end:
/// the result is within tolerance of a half turn.
pub proof fn lemma_acos_at_min(c: int, r: int)
    requires
        c == -1_000_000,
        r == spec_acos(c),
        0 <= r < 180_000_000,
        exists|h: int| r < h <= r + 1000 && h <= 180_000_000 && spec_cos_half(h) <= c,
    ensures
        r >= 179_999_000,
{
    let h = choose|h: int| r < h <= r + 1000 && h <= 180_000_000 && spec_cos_half(h) <= c;
    lemma_cos_min_only_at_180(h);
}

} // verus!
