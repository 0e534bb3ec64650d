//! Fixed-point integer arithmetic: a truncating multiply-then-divide
//! operation and an exact integer square root, with the lemmas the
//! simulation needs about them.

use vstd::prelude::*;
use vstd::arithmetic::div_mod::{lemma_div_is_ordered, lemma_div_multiples_vanish, lemma_div_pos_is_pos};

verus! {

/// `a * m / d` rounded toward zero, for a non-negative multiplier `m`
/// and a positive divisor `d`.
pub open spec fn mul_div_spec(a: int, m: int, d: int) -> int
    recommends
        0 <= m,
        0 < d,
{
    if a >= 0 {
        (a * m) / d
    } else {
        -((-a * m) / d)
    }
}

/// Scales `a` by the ratio `m / d`, rounding toward zero.
pub fn mul_div(a: i64, m: i64, d: i64) -> (r: i64)
    requires
        i64::MIN < a,
        0 <= m,
        0 < d,
        a * m <= i64::MAX,
        (-a) * m <= i64::MAX,
    ensures
        r == mul_div_spec(a as int, m as int, d as int),
{
    let mag: u64 = if a >= 0 {
        a as u64
    } else {
        (-a) as u64
    };
    assert(mag * (m as u64) <= i64::MAX);
    let q: u64 = (mag * (m as u64)) / (d as u64);
    proof {
        lemma_div_is_ordered((mag * (m as u64)) as int, i64::MAX as int, d as int);
        lemma_div_pos_is_pos((mag * (m as u64)) as int, d as int);
        assert(i64::MAX as int / d as int <= i64::MAX as int) by (nonlinear_arith)
            requires
                0 < d;
    }
    if a >= 0 {
        q as i64
    } else {
        -(q as i64)
    }
}

/// If `|a| * m <= b * d`, the scaled value stays within `[-b, b]`.
pub proof fn lemma_mul_div_le(a: int, m: int, d: int, b: int)
    requires
        0 <= m,
        0 < d,
        0 <= b,
        a * m <= b * d,
        (-a) * m <= b * d,
    ensures
        -b <= mul_div_spec(a, m, d) <= b,
{
    assert(b * d == d * b) by (nonlinear_arith);
    lemma_div_multiples_vanish(b, d);
    if a >= 0 {
        assert(0 <= a * m) by (nonlinear_arith)
            requires
                0 <= a,
                0 <= m;
        lemma_div_is_ordered(a * m, b * d, d);
        lemma_div_pos_is_pos(a * m, d);
    } else {
        assert(0 <= -a * m) by (nonlinear_arith)
            requires
                a < 0,
                0 <= m;
        lemma_div_is_ordered(-a * m, b * d, d);
        lemma_div_pos_is_pos(-a * m, d);
    }
}

/// Scaling the opposite value gives the opposite result.
pub proof fn lemma_mul_div_opposite(a: int, m: int, d: int)
    requires
        0 <= m,
        0 < d,
    ensures
        mul_div_spec(-a, m, d) == -mul_div_spec(a, m, d),
{
    if a == 0 {
        assert(0 * m == 0);
        vstd::arithmetic::div_mod::lemma_div_of0(d);
    }
}

/// The scaled value carries the sign of its input: their product is
/// never negative.
pub proof fn lemma_mul_div_sign(a: int, m: int, d: int)
    requires
        0 <= m,
        0 < d,
    ensures
        a * mul_div_spec(a, m, d) >= 0,
{
    if a >= 0 {
        assert(0 <= a * m) by (nonlinear_arith)
            requires
                0 <= a,
                0 <= m;
        vstd::arithmetic::div_mod::lemma_div_pos_is_pos(a * m, d);
        assert(a * mul_div_spec(a, m, d) >= 0) by (nonlinear_arith)
            requires
                0 <= a,
                0 <= mul_div_spec(a, m, d);
    } else {
        assert(0 <= -a * m) by (nonlinear_arith)
            requires
                a < 0,
                0 <= m;
        vstd::arithmetic::div_mod::lemma_div_pos_is_pos(-a * m, d);
        assert(a * mul_div_spec(a, m, d) >= 0) by (nonlinear_arith)
            requires
                a < 0,
                mul_div_spec(a, m, d) <= 0;
    }
}

/// The floor square root, defined by counting up from zero.
pub open spec fn isqrt_rec(n: nat) -> nat
    decreases n,
{
    if n == 0 {
        0
    } else {
        let r = isqrt_rec((n - 1) as nat);
        if (r + 1) * (r + 1) <= n {
            r + 1
        } else {
            r
        }
    }
}

/// The floor of the square root of a non-negative `n`.
pub open spec fn isqrt_spec(n: int) -> int
    recommends
        0 <= n,
{
    isqrt_rec(n as nat) as int
}

/// The floor square root is characterised by `r * r <= n < (r + 1) * (r + 1)`.
pub proof fn lemma_isqrt_bounds(n: int)
    requires
        0 <= n,
    ensures
        0 <= isqrt_spec(n),
        isqrt_spec(n) * isqrt_spec(n) <= n,
        n < (isqrt_spec(n) + 1) * (isqrt_spec(n) + 1),
    decreases n,
{
    if n == 0 {
        assert(isqrt_spec(0) == 0);
    } else {
        lemma_isqrt_bounds(n - 1);
        let r = isqrt_spec(n - 1);
        if (r + 1) * (r + 1) <= n {
            assert((r + 1) + 1 >= 1);
            assert((r + 1) * (r + 1) < ((r + 1) + 1) * ((r + 1) + 1)) by (nonlinear_arith)
                requires
                    0 <= r;
            assert(n <= (r + 1) * (r + 1));
        }
    }
}

/// Any `r` within the floor-square-root bounds is the floor square root.
pub proof fn lemma_isqrt_unique(n: int, r: int)
    requires
        0 <= n,
        0 <= r,
        r * r <= n,
        n < (r + 1) * (r + 1),
    ensures
        r == isqrt_spec(n),
{
    lemma_isqrt_bounds(n);
    let s = isqrt_spec(n);
    if r < s {
        assert((r + 1) * (r + 1) <= s * s) by (nonlinear_arith)
            requires
                0 <= r,
                r + 1 <= s;
    }
    if s < r {
        assert((s + 1) * (s + 1) <= r * r) by (nonlinear_arith)
            requires
                0 <= s,
                s + 1 <= r;
    }
}

/// A non-negative `x` with `x * x <= s` is at most the floor square root
/// of `s`.
pub proof fn lemma_component_le_isqrt(x: int, s: int)
    requires
        0 <= x,
        x * x <= s,
    ensures
        x <= isqrt_spec(s),
{
    assert(0 <= x * x) by (nonlinear_arith)
        requires
            0 <= x;
    lemma_isqrt_bounds(s);
    let r = isqrt_spec(s);
    if x > r {
        assert((r + 1) * (r + 1) <= x * x) by (nonlinear_arith)
            requires
                0 <= r,
                r + 1 <= x;
    }
}

/// The floor of the square root of `n`, for `n` below `4 * 10^18`.
pub fn isqrt(n: i64) -> (r: i64)
    requires
        0 <= n < 4_000_000_000_000_000_000,
    ensures
        r == isqrt_spec(n as int),
        0 <= r <= 2_000_000_000,
{
    let mut lo: i64 = 0;
    let mut hi: i64 = 2_000_000_000;
    while hi - lo > 1
        invariant
            0 <= lo < hi <= 2_000_000_000,
            lo * lo <= n,
            n < hi * hi,
            n < 4_000_000_000_000_000_000,
        decreases hi - lo,
    {
        let mid: i64 = lo + (((hi - lo) as u64 / 2) as i64);
        proof {
            assert(mid * mid <= 4_000_000_000_000_000_000) by (nonlinear_arith)
                requires
                    0 <= mid <= 2_000_000_000;
        }
        if mid * mid <= n {
            lo = mid;
        } else {
            hi = mid;
        }
    }
    proof {
        lemma_isqrt_unique(n as int, lo as int);
        lemma_isqrt_bounds(n as int);
    }
    lo
}

} // verus!
