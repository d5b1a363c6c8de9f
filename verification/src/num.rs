//! Integer helpers: floor division and remainder, scaled multiply-divide,
//! and an integer square root.
//!
//! Exec division on signed machine integers truncates toward zero, while the
//! mathematical specifications here use Euclidean division. These helpers
//! bridge the two so that the rest of the crate can state contracts directly
//! over `/` and `%` on `int`.

use vstd::prelude::*;

verus! {

use vstd::arithmetic::div_mod::{
    lemma_fundamental_div_mod,
    lemma_fundamental_div_mod_converse_div,
    lemma_mod_division_less_than_divisor,
    lemma_div_is_ordered,
    lemma_div_pos_is_pos,
};

/// Floor division for `i64` with a positive divisor.
pub fn div_floor(a: i64, b: i64) -> (r: i64)
    requires
        b > 0,
        a > i64::MIN + b,
    ensures
        r == a as int / b as int,
{
    if a >= 0 {
        a / b
    } else {
        let na: i64 = -a;
        let q: i64 = (na + b - 1) / b;
        proof {
            lemma_fundamental_div_mod((na + b - 1) as int, b as int);
            lemma_mod_division_less_than_divisor((na + b - 1) as int, b as int);
            let r2 = (na + b - 1) as int % b as int;
            assert(a as int == (-(q as int)) * b as int + (b - 1 - r2)) by (nonlinear_arith)
                requires
                    na + b - 1 == b as int * (q as int) + r2,
                    na == -(a as int),
            ;
            lemma_fundamental_div_mod_converse_div(a as int, b as int, -(q as int), b - 1 - r2);
        }
        -q
    }
}

/// Euclidean remainder for `i64` with a positive divisor.
pub fn mod_floor(a: i64, b: i64) -> (r: i64)
    requires
        b > 0,
        a > i64::MIN + b,
        a < i64::MAX - b,
    ensures
        r == a as int % b as int,
        0 <= r < b,
{
    let q: i64 = div_floor(a, b);
    proof {
        lemma_fundamental_div_mod(a as int, b as int);
        lemma_mod_division_less_than_divisor(a as int, b as int);
        assert(b as int * (q as int) == (q as int) * (b as int)) by (nonlinear_arith);
        assert(-(b as int) <= (q as int) * (b as int) - a <= b as int);
    }
    a - q * b
}

/// Floor of `a * b / d` for a positive divisor `d`, computed without overflow
/// through a 128-bit intermediate product.
pub fn mul_div_floor(a: i64, b: i64, d: i64) -> (r: i64)
    requires
        0 < d <= 1_000_000_000,
        -4_000_000_000_000 <= a <= 4_000_000_000_000,
        -10 * d <= b <= 10 * d,
    ensures
        r == (a as int * b as int) / d as int,
        -40_000_000_000_001 <= r <= 40_000_000_000_000,
{
    proof {
        assert((d as int) * (-40_000_000_000_000) <= a as int * b as int <= (d as int)
            * 40_000_000_000_000) by (nonlinear_arith)
            requires
                0 < d,
                -4_000_000_000_000 <= a <= 4_000_000_000_000,
                -10 * d <= b <= 10 * d,
        ;
    }
    let neg: bool = (a < 0) != (b < 0);
    let au: u128 = if a < 0 {
        (-a) as u128
    } else {
        a as u128
    };
    let bu: u128 = if b < 0 {
        (-b) as u128
    } else {
        b as u128
    };
    proof {
        assert(au as int * bu as int <= 4_000_000_000_000int * (10 * d as int)) by (nonlinear_arith)
            requires
                0 <= au <= 4_000_000_000_000,
                0 <= bu <= 10 * d as int,
        ;
        assert(au as int * bu as int == if neg {
            -(a as int * b as int)
        } else {
            a as int * b as int
        }) by (nonlinear_arith)
            requires
                au == if a < 0 { -(a as int) } else { a as int },
                bu == if b < 0 { -(b as int) } else { b as int },
                neg == ((a < 0) != (b < 0)),
        ;
    }
    let pu: u128 = au * bu;
    let du: u128 = d as u128;
    let ghost pi = a as int * b as int;
    proof {
        lemma_div_is_ordered(pu as int, (d as int) * 40_000_000_000_000, d as int);
        vstd::arithmetic::div_mod::lemma_div_multiples_vanish(40_000_000_000_000, d as int);
        lemma_div_pos_is_pos(pu as int, d as int);
    }
    if !neg {
        let q: u128 = pu / du;
        q as i64
    } else if pu == 0 {
        0
    } else {
        let q0: u128 = (pu + du - 1) / du;
        proof {
            lemma_fundamental_div_mod((pu + du - 1) as int, d as int);
            lemma_mod_division_less_than_divisor((pu + du - 1) as int, d as int);
            let r2 = (pu + du - 1) as int % d as int;
            assert(pi == (-(q0 as int)) * d as int + (d - 1 - r2)) by (nonlinear_arith)
                requires
                    pu + du - 1 == d as int * (q0 as int) + r2,
                    pu == -pi,
                    du == d as int,
            ;
            lemma_fundamental_div_mod_converse_div(pi, d as int, -(q0 as int), d - 1 - r2);
            lemma_div_is_ordered((d as int) * (-40_000_000_000_001), pi, d as int);
            vstd::arithmetic::div_mod::lemma_div_multiples_vanish(-40_000_000_000_001, d as int);
        }
        -(q0 as i64)
    }
}

/// Both bounds of a quotient at once: if `lo * d <= p <= hi * d` then
/// `lo <= p / d <= hi`.
pub proof fn lemma_div_bounds(p: int, d: int, lo: int, hi: int)
    requires
        0 < d,
        lo * d <= p,
        p <= hi * d,
    ensures
        lo <= p / d <= hi,
{
    lemma_div_is_ordered(lo * d, p, d);
    lemma_div_is_ordered(p, hi * d, d);
    assert(lo * d == d * lo) by (nonlinear_arith);
    assert(hi * d == d * hi) by (nonlinear_arith);
    vstd::arithmetic::div_mod::lemma_div_multiples_vanish(lo, d);
    vstd::arithmetic::div_mod::lemma_div_multiples_vanish(hi, d);
}

/// A strict upper bound on a quotient: if `p < hi * d` then `p / d < hi`.
pub proof fn lemma_div_strict_upper(p: int, d: int, hi: int)
    requires
        0 < d,
        p < hi * d,
    ensures
        p / d < hi,
{
    lemma_div_is_ordered(p, hi * d - 1, d);
    assert(hi * d - 1 == (hi - 1) * d + (d - 1)) by (nonlinear_arith);
    lemma_fundamental_div_mod_converse_div(hi * d - 1, d, hi - 1, d - 1);
}

/// Integer square root of `v`, defined recursively for specifications.
pub open spec fn spec_isqrt(v: int) -> int
    decreases v,
{
    if v <= 0 {
        0
    } else {
        let r = spec_isqrt(v - 1);
        if (r + 1) * (r + 1) <= v {
            r + 1
        } else {
            r
        }
    }
}

/// The recursive square root is the greatest integer whose square does not
/// exceed `v`.
pub proof fn lemma_spec_isqrt_bracket(v: int)
    requires
        0 <= v,
    ensures
        spec_isqrt(v) >= 0,
        spec_isqrt(v) * spec_isqrt(v) <= v,
        (spec_isqrt(v) + 1) * (spec_isqrt(v) + 1) > v,
    decreases v,
{
    if v == 0 {
    } else {
        lemma_spec_isqrt_bracket(v - 1);
        let r0 = spec_isqrt(v - 1);
        if (r0 + 1) * (r0 + 1) <= v {
            assert((r0 + 2) * (r0 + 2) > v) by (nonlinear_arith)
                requires
                    r0 >= 0,
                    v - 1 < (r0 + 1) * (r0 + 1),
            ;
        }
    }
}

/// Two integers that both bracket `v` between their square and the next
/// square are equal.
pub proof fn lemma_isqrt_unique(v: int, a: int, b: int)
    requires
        0 <= a,
        0 <= b,
        a * a <= v < (a + 1) * (a + 1),
        b * b <= v < (b + 1) * (b + 1),
    ensures
        a == b,
{
    assert(a == b) by (nonlinear_arith)
        requires
            0 <= a,
            0 <= b,
            a * a <= v < (a + 1) * (a + 1),
            b * b <= v < (b + 1) * (b + 1),
    ;
}

/// Integer square root: the greatest `r` with `r * r <= v`.
pub fn isqrt(v: u64) -> (r: u64)
    requires
        v <= 4_000_000_000_000,
    ensures
        r * r <= v,
        (r + 1) * (r + 1) > v,
        r <= 2_000_000,
        r == spec_isqrt(v as int),
{
    let mut lo: u64 = 0;
    let mut hi: u64 = 2_000_001;
    proof {
        assert(2_000_001u64 * 2_000_001u64 > 4_000_000_000_000) by (nonlinear_arith);
    }
    while hi - lo > 1
        invariant
            lo < hi <= 2_000_001,
            lo * lo <= v,
            hi * hi > v,
        decreases hi - lo,
    {
        let mid: u64 = lo + (hi - lo) / 2;
        proof {
            assert(lo < mid < hi);
            assert(mid as int * mid as int <= 2_000_001int * 2_000_001int) by (nonlinear_arith)
                requires
                    0 <= mid <= 2_000_001,
            ;
        }
        if mid * mid <= v {
            lo = mid;
        } else {
            hi = mid;
        }
    }
    proof {
        lemma_spec_isqrt_bracket(v as int);
        lemma_isqrt_unique(v as int, lo as int, spec_isqrt(v as int));
    }
    lo
}

} // verus!
