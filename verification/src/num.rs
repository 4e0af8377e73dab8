//! Integer helpers for the fixed-point arithmetic of the arena:
//! truncating division, integer square root, and clamping.

use vstd::prelude::*;

verus! {

/// Truncating division (rounds toward zero), the rounding the simulation
/// uses whenever a scaled coordinate or value estimate is divided.
pub open spec fn div_trunc(a: int, b: int) -> int
    recommends
        b > 0,
{
    if a >= 0 {
        a / b
    } else {
        -((-a) / b)
    }
}

/// Truncating division never rounds past the true quotient:
/// `b * div_trunc(a, b)` lies within `b` of `a`, on the zero side of it.
pub proof fn lemma_div_trunc_bounds(a: int, b: int)
    requires
        b > 0,
    ensures
        a >= 0 ==> b * div_trunc(a, b) <= a < b * div_trunc(a, b) + b,
        a < 0 ==> b * div_trunc(a, b) >= a > b * div_trunc(a, b) - b,
        a >= 0 ==> div_trunc(a, b) >= 0,
        a < 0 ==> div_trunc(a, b) <= 0,
{
    if a >= 0 {
        assert(a == b * (a / b) + a % b) by {
            vstd::arithmetic::div_mod::lemma_fundamental_div_mod(a, b);
        }
        assert(0 <= a % b < b) by {
            vstd::arithmetic::div_mod::lemma_mod_bound(a, b);
        }
        assert(a / b >= 0) by {
            vstd::arithmetic::div_mod::lemma_div_pos_is_pos(a, b);
        }
    } else {
        let m = -a;
        assert(m == b * (m / b) + m % b) by {
            vstd::arithmetic::div_mod::lemma_fundamental_div_mod(m, b);
        }
        assert(0 <= m % b < b) by {
            vstd::arithmetic::div_mod::lemma_mod_bound(m, b);
        }
        assert(m / b >= 0) by {
            vstd::arithmetic::div_mod::lemma_div_pos_is_pos(m, b);
        }
        assert(b * div_trunc(a, b) == -(b * (m / b))) by {
            assert(div_trunc(a, b) == -(m / b));
            vstd::arithmetic::mul::lemma_mul_unary_negation(b, m / b);
        }
    }
}

/// The magnitude of a truncating quotient never exceeds the magnitude
/// of the dividend.
pub proof fn lemma_div_trunc_magnitude(a: int, b: int)
    requires
        b > 0,
    ensures
        a >= 0 ==> 0 <= div_trunc(a, b) <= a,
        a < 0 ==> a <= div_trunc(a, b) <= 0,
{
    if a >= 0 {
        assert(a / b <= a) by {
            vstd::arithmetic::div_mod::lemma_div_basics_5(a, b);
        }
        assert(a / b >= 0) by {
            vstd::arithmetic::div_mod::lemma_div_pos_is_pos(a, b);
        }
    } else {
        let m = -a;
        assert(m / b <= m) by {
            vstd::arithmetic::div_mod::lemma_div_basics_5(m, b);
        }
        assert(m / b >= 0) by {
            vstd::arithmetic::div_mod::lemma_div_pos_is_pos(m, b);
        }
    }
}

/// Executable truncating division, matching `div_trunc` exactly.
pub fn div_trunc_i64(a: i64, b: i64) -> (r: i64)
    requires
        b > 0,
        a > i64::MIN,
    ensures
        r == div_trunc(a as int, b as int),
{
    if a >= 0 {
        ((a as u64) / (b as u64)) as i64
    } else {
        proof {
            lemma_div_trunc_magnitude(-(a as int), b as int);
        }
        -((((-a) as u64) / (b as u64)) as i64)
    }
}

/// `r` is the integer square root of `n`.
pub open spec fn is_isqrt(n: int, r: int) -> bool {
    &&& 0 <= r
    &&& r * r <= n
    &&& n < (r + 1) * (r + 1)
}

/// The integer square root of a non-negative `n`: the unique `r >= 0`
/// with `r * r <= n < (r + 1) * (r + 1)`.
pub open spec fn isqrt_spec(n: int) -> int
    recommends
        n >= 0,
{
    choose|r: int| is_isqrt(n, r)
}

/// Any witness of `is_isqrt` is the integer square root: the root is unique.
pub proof fn lemma_isqrt_unique(n: int, r: int)
    requires
        is_isqrt(n, r),
    ensures
        isqrt_spec(n) == r,
{
    assert(exists|x: int| is_isqrt(n, x)) by {
        assert(is_isqrt(n, r));
    }
    let c = isqrt_spec(n);
    assert(is_isqrt(n, c));
    if c < r {
        assert((c + 1) * (c + 1) <= r * r) by (nonlinear_arith)
            requires
                0 <= c + 1 <= r,
        ;
    } else if r < c {
        assert((r + 1) * (r + 1) <= c * c) by (nonlinear_arith)
            requires
                0 <= r + 1 <= c,
        ;
    }
}

/// Every non-negative integer has an integer square root, so
/// `isqrt_spec` satisfies its defining inequalities.
pub proof fn lemma_isqrt_exists(n: int)
    requires
        n >= 0,
    ensures
        is_isqrt(n, isqrt_spec(n)),
    decreases n,
{
    if n == 0 {
        assert(exists|x: int| is_isqrt(n, x)) by {
            assert(is_isqrt(0, 0)) by (nonlinear_arith);
        }
    } else {
        lemma_isqrt_exists(n - 1);
        let r = isqrt_spec(n - 1);
        assert(is_isqrt(n - 1, r));
        if (r + 1) * (r + 1) <= n {
            assert(n == (r + 1) * (r + 1));
            assert(exists|x: int| is_isqrt(n, x)) by {
                assert(is_isqrt(n, r + 1)) by (nonlinear_arith)
                    requires
                        r >= 0,
                        n == (r + 1) * (r + 1),
                ;
            }
        } else {
            assert(exists|x: int| is_isqrt(n, x)) by {
                assert(is_isqrt(n, r));
            }
        }
    }
    assert(is_isqrt(n, choose|x: int| is_isqrt(n, x)));
}

/// Integer square root: the largest `r` with `r * r <= n`.
pub fn isqrt_u64(n: u64) -> (r: u64)
    ensures
        r * r <= n < (r + 1) * (r + 1),
        r <= 0xFFFF_FFFFu64,
{
    let mut lo: u64 = 0;
    let mut hi: u64 = 0xFFFF_FFFF;
    proof {
        assert((0xFFFF_FFFFu64 + 1) * (0xFFFF_FFFFu64 + 1) > u64::MAX) by (nonlinear_arith);
    }
    while lo < hi
        invariant
            lo <= hi <= 0xFFFF_FFFFu64,
            lo * lo <= n,
            n < (hi + 1) * (hi + 1),
        decreases hi - lo,
    {
        let mid = lo + (hi - lo + 1) / 2;
        proof {
            assert(lo < mid <= hi);
            assert(mid * mid <= 0xFFFF_FFFFu64 * 0xFFFF_FFFFu64) by (nonlinear_arith)
                requires
                    0 <= mid <= 0xFFFF_FFFFu64,
            ;
            assert(0xFFFF_FFFFu64 * 0xFFFF_FFFFu64 < u64::MAX) by (nonlinear_arith);
        }
        if mid * mid <= n {
            lo = mid;
        } else {
            hi = mid - 1;
        }
    }
    lo
}

/// Integer square root on a non-negative `i64` coordinate quantity.
pub fn isqrt_i64(n: i64) -> (r: i64)
    requires
        n >= 0,
    ensures
        0 <= r,
        r * r <= n < (r + 1) * (r + 1),
        r == isqrt_spec(n as int),
{
    let r = isqrt_u64(n as u64);
    proof {
        assert(r * r <= n as u64);
        assert((n as u64) < (r + 1) * (r + 1));
        assert(r < 0x8000_0000_0000_0000u64);
        lemma_isqrt_unique(n as int, r as int);
    }
    r as i64
}

/// Clamp `v` into the closed interval `[lo, hi]`.
pub fn clamp_i64(v: i64, lo: i64, hi: i64) -> (r: i64)
    requires
        lo <= hi,
    ensures
        r == clamp_spec(v as int, lo as int, hi as int),
{
    if v < lo {
        lo
    } else if v > hi {
        hi
    } else {
        v
    }
}

/// The mathematical clamp of `v` into `[lo, hi]`.
pub open spec fn clamp_spec(v: int, lo: int, hi: int) -> int {
    if v < lo {
        lo
    } else if v > hi {
        hi
    } else {
        v
    }
}

} // verus!
