//! Fixed-point arithmetic helpers: truncating division as the machine
//! performs it, clamping, sign extraction, and an integer square root.
use vstd::prelude::*;

verus! {

/// Truncating (round-toward-zero) division, the semantics of `/` on the
/// machine's signed integers, expressed over mathematical integers.
pub open spec fn tdiv(a: int, b: int) -> int {
    if a >= 0 {
        a / b
    } else {
        -((-a) / b)
    }
}

/// Quotients grow with their dividends: truncating division by a positive
/// divisor is monotone.
pub proof fn lemma_tdiv_monotone(a1: int, a2: int, b: int)
    requires
        a1 <= a2,
        b >= 1,
    ensures
        tdiv(a1, b) <= tdiv(a2, b),
{
    if a1 >= 0 {
        vstd::arithmetic::div_mod::lemma_div_is_ordered(a1, a2, b);
    } else if a2 < 0 {
        vstd::arithmetic::div_mod::lemma_div_is_ordered(-a2, -a1, b);
    } else {
        vstd::arithmetic::div_mod::lemma_div_pos_is_pos(-a1, b);
        vstd::arithmetic::div_mod::lemma_div_pos_is_pos(a2, b);
    }
}

/// A step of the form `a * k / (c * s)` with `|a| <= c` — a displacement
/// along a direction component `a` of a vector no longer than `c` — is
/// no larger in magnitude than `k / s`.
pub proof fn lemma_tdiv_ratio_bound(a: int, c: int, k: int, s: int)
    requires
        abs_spec(a) <= c,
        1 <= c,
        0 <= k,
        1 <= s,
    ensures
        abs_spec(tdiv(a * k, c * s)) <= k / s,
{
    assert(-(c * k) <= a * k <= c * k && c * k >= 0 && c * s >= 1) by (nonlinear_arith)
        requires
            -c <= a <= c,
            1 <= c,
            0 <= k,
            1 <= s,
    ;
    lemma_tdiv_monotone(a * k, c * k, c * s);
    lemma_tdiv_monotone(-(c * k), a * k, c * s);
    vstd::arithmetic::div_mod::lemma_div_denominator(c * k, c, s);
    vstd::arithmetic::div_mod::lemma_div_multiples_vanish(k, c);
    vstd::arithmetic::div_mod::lemma_div_pos_is_pos(k, s);
    assert(tdiv(c * k, c * s) == (c * k) / (c * s));
    assert(tdiv(-(c * k), c * s) == -((c * k) / (c * s)));
}

/// Magnitude of an integer.
pub open spec fn abs_spec(a: int) -> int {
    if a >= 0 {
        a
    } else {
        -a
    }
}

/// The sign of an integer: `1`, `-1` or `0`.
pub open spec fn signum_spec(a: int) -> int {
    if a > 0 {
        1
    } else if a < 0 {
        -1
    } else {
        0
    }
}

/// Magnitude of a machine integer; the minimum value is excluded so the
/// negation cannot overflow.
pub fn abs_i64(a: i64) -> (r: i64)
    requires
        a != i64::MIN,
    ensures
        r == abs_spec(a as int),
{
    if a >= 0 {
        a
    } else {
        -a
    }
}

/// The sign of a machine integer.
pub fn signum_i64(a: i64) -> (r: i64)
    ensures
        r == signum_spec(a as int),
{
    if a > 0 {
        1
    } else if a < 0 {
        -1
    } else {
        0
    }
}

/// A value forced into a closed interval.
pub open spec fn clamp_spec(v: int, lo: int, hi: int) -> int {
    if v < lo {
        lo
    } else if v > hi {
        hi
    } else {
        v
    }
}

/// Force a value into the closed interval `[lo, hi]`.
pub fn clamp_i64(v: i64, lo: i64, hi: i64) -> (r: i64)
    requires
        lo <= hi,
    ensures
        r == clamp_spec(v as int, lo as int, hi as int),
        lo <= r <= hi,
{
    if v < lo {
        lo
    } else if v > hi {
        hi
    } else {
        v
    }
}

/// The integer square root: the largest integer whose square does not
/// exceed `n`, defined by counting up from zero.
pub open spec fn sqrt_floor(n: nat) -> nat
    decreases n,
{
    if n == 0 {
        0
    } else {
        let r = sqrt_floor((n - 1) as nat);
        if (r + 1) * (r + 1) <= n {
            r + 1
        } else {
            r
        }
    }
}

/// The defining property of `sqrt_floor`: its square is at most `n`, and
/// the next square is beyond `n`.
pub proof fn lemma_sqrt_floor_bounds(n: nat)
    ensures
        sqrt_floor(n) * sqrt_floor(n) <= n,
        n < (sqrt_floor(n) + 1) * (sqrt_floor(n) + 1),
    decreases n,
{
    if n > 0 {
        lemma_sqrt_floor_bounds((n - 1) as nat);
        let r = sqrt_floor((n - 1) as nat);
        assert(r * r <= n - 1);
        assert(n - 1 < (r + 1) * (r + 1));
        if (r + 1) * (r + 1) <= n {
            assert(sqrt_floor(n) == r + 1);
            assert((r + 1) * (r + 1) < (r + 2) * (r + 2)) by (nonlinear_arith);
        } else {
            assert(sqrt_floor(n) == r);
        }
    } else {
        assert(n == 0);
        assert(sqrt_floor(n) == 0);
        assert(n < (sqrt_floor(n) + 1) * (sqrt_floor(n) + 1)) by (nonlinear_arith)
            requires
                n == 0,
                sqrt_floor(n) == 0,
        ;
    }
}

/// Any integer that satisfies the defining bounds is the integer square
/// root: the bounds pin it down uniquely.
pub proof fn lemma_sqrt_floor_unique(n: nat, r: nat)
    requires
        r * r <= n,
        n < (r + 1) * (r + 1),
    ensures
        r == sqrt_floor(n),
{
    lemma_sqrt_floor_bounds(n);
    let s = sqrt_floor(n);
    if r < s {
        assert(false) by (nonlinear_arith)
            requires
                r < s,
                s * s <= n,
                n < (r + 1) * (r + 1),
        ;
    }
    if s < r {
        assert(false) by (nonlinear_arith)
            requires
                s < r,
                r * r <= n,
                n < (s + 1) * (s + 1),
        ;
    }
}

/// Integer square root by binary search.
pub fn isqrt(n: u128) -> (r: u128)
    ensures
        r == sqrt_floor(n as nat),
        r < 0x1_0000_0000_0000_0000u128,
{
    let mut lo: u128 = 0;
    let mut hi: u128 = 0x1_0000_0000_0000_0000u128;
    proof {
        assert((hi as int) * (hi as int) > n as int) by (nonlinear_arith)
            requires
                hi == 0x1_0000_0000_0000_0000u128,
                n <= u128::MAX,
        ;
    }
    while lo + 1 < hi
        invariant
            lo < hi,
            hi <= 0x1_0000_0000_0000_0000u128,
            (lo as int) * (lo as int) <= n as int,
            (n as int) < (hi as int) * (hi as int),
        decreases hi - lo,
    {
        let mid = lo + (hi - lo) / 2;
        proof {
            assert((mid as int) * (mid as int) <= u128::MAX as int) by (nonlinear_arith)
                requires
                    mid < 0x1_0000_0000_0000_0000u128,
            ;
        }
        if mid * mid <= n {
            lo = mid;
        } else {
            hi = mid;
        }
    }
    proof {
        lemma_sqrt_floor_unique(n as nat, lo as nat);
    }
    lo
}

/// The Euclidean remainder of `a` by `m`: the unique representative of
/// `a` modulo `m` that lies in `[0, m)`.
pub fn euclid_mod(a: i64, m: i64) -> (r: i64)
    requires
        0 < m,
        a != i64::MIN,
    ensures
        r == (a as int) % (m as int),
        0 <= r < m,
{
    proof {
        vstd::arithmetic::div_mod::lemma_mod_bound(a as int, m as int);
        vstd::arithmetic::div_mod::lemma_mod_bound(-a as int, m as int);
    }
    let r0 = a % m;
    if r0 < 0 {
        proof {
            let u = (-a as int) % (m as int);
            vstd::arithmetic::div_mod::lemma_fundamental_div_mod(-a as int, m as int);
            let q = (-a as int) / (m as int);
            assert(a as int == (m as int) * (-q - 1) + (m - u)) by (nonlinear_arith)
                requires
                    -a as int == (m as int) * q + u,
            ;
            vstd::arithmetic::div_mod::lemma_fundamental_div_mod_converse_mod(
                a as int,
                m as int,
                -q - 1,
                m - u,
            );
        }
        r0 + m
    } else {
        proof {
            if a < 0 {
                let u = (-a as int) % (m as int);
                vstd::arithmetic::div_mod::lemma_fundamental_div_mod(-a as int, m as int);
                let q = (-a as int) / (m as int);
                assert(a as int == (m as int) * (-q) + 0) by (nonlinear_arith)
                    requires
                        -a as int == (m as int) * q + u,
                        u == 0,
                ;
                vstd::arithmetic::div_mod::lemma_fundamental_div_mod_converse_mod(
                    a as int,
                    m as int,
                    -q,
                    0,
                );
            }
        }
        r0
    }
}

} // verus!
