//! The integer square root, and the facts about integer Newton steps that
//! show a decreasing Newton iteration ends exactly at it.
use vstd::arithmetic::div_mod::lemma_fundamental_div_mod;
use vstd::prelude::*;

verus! {

/// `s` is the integer square root of `n`: the largest `s` with `s * s <= n`.
pub open spec fn is_floor_sqrt(n: int, s: int) -> bool {
    0 <= s && s * s <= n && n < (s + 1) * (s + 1)
}

/// The integer square root of a natural number, built up one unit at a time.
pub open spec fn floor_sqrt(n: nat) -> nat
    decreases n,
{
    if n == 0 {
        0
    } else {
        let s = floor_sqrt((n - 1) as nat);
        if (s + 1) * (s + 1) <= n {
            (s + 1) as nat
        } else {
            s
        }
    }
}

/// One step of the integer Newton iteration `x -> (x + n / x) / 2`.
pub open spec fn newton_step(n: int, x: int) -> int {
    (x + n / x) / 2
}

pub proof fn lemma_floor_sqrt(n: nat)
    ensures
        is_floor_sqrt(n as int, floor_sqrt(n) as int),
    decreases n,
{
    if n > 0 {
        lemma_floor_sqrt((n - 1) as nat);
        let s = floor_sqrt((n - 1) as nat) as int;
        if (s + 1) * (s + 1) <= n {
            assert((s + 2) * (s + 2) == (s + 1) * (s + 1) + 2 * s + 3) by (nonlinear_arith);
        }
    }
}

/// The integer square root of an `i128` value fits in 64 bits.
pub proof fn lemma_floor_sqrt_small(n: int, s: int)
    requires
        0 <= n <= i128::MAX,
        is_floor_sqrt(n, s),
    ensures
        s < 0x10000000000000000,
{
    if s >= 0x10000000000000000 {
        assert(s * s >= 0x10000000000000000 * 0x10000000000000000) by (nonlinear_arith)
            requires
                s >= 0x10000000000000000,
        ;
    }
}

/// The integer square root is unique.
pub proof fn lemma_floor_sqrt_unique(n: int, s: int, t: int)
    requires
        is_floor_sqrt(n, s),
        is_floor_sqrt(n, t),
    ensures
        s == t,
{
    if s < t {
        assert((s + 1) * (s + 1) <= t * t) by (nonlinear_arith)
            requires
                0 <= s,
                s + 1 <= t,
        ;
    }
    if t < s {
        assert((t + 1) * (t + 1) <= s * s) by (nonlinear_arith)
            requires
                0 <= t,
                t + 1 <= s,
        ;
    }
}

/// Division facts about `n / x` for positive `x`.
proof fn lemma_quotient(n: int, x: int)
    requires
        n >= 0,
        x >= 1,
    ensures
        x * (n / x) <= n,
        n < x * (n / x + 1),
        n / x >= 0,
{
    lemma_fundamental_div_mod(n, x);
    assert(0 <= n % x < x) by {
        vstd::arithmetic::div_mod::lemma_mod_bound(n, x);
    }
    assert(x * (n / x + 1) == x * (n / x) + x) by (nonlinear_arith);
    if n / x < 0 {
        assert(x * (n / x) <= -x) by (nonlinear_arith)
            requires
                x >= 1,
                n / x <= -1,
        ;
    }
}

/// A Newton step never goes below the integer square root.
proof fn lemma_step_lower(n: int, s: int, x: int)
    requires
        is_floor_sqrt(n, s),
        x >= 1,
    ensures
        newton_step(n, x) >= s,
{
    let q = n / x;
    lemma_quotient(n, x);
    let y = newton_step(n, x);
    if y < s {
        assert(x + q <= 2 * s - 1);
        assert(x * (q + 1) <= x * (2 * s - x)) by (nonlinear_arith)
            requires
                x >= 1,
                q + 1 <= 2 * s - x,
        ;
        assert(x * (2 * s - x) <= s * s) by (nonlinear_arith);
        assert(false);
    }
}

/// Above the integer square root, a Newton step strictly decreases.
proof fn lemma_step_decreases(n: int, s: int, x: int)
    requires
        is_floor_sqrt(n, s),
        x >= s + 1,
    ensures
        newton_step(n, x) < x,
{
    let q = n / x;
    lemma_quotient(n, x);
    assert(x * x >= (s + 1) * (s + 1)) by (nonlinear_arith)
        requires
            x >= s + 1,
            s >= 0,
    ;
    assert(q < x) by {
        if q >= x {
            assert(x * q >= x * x) by (nonlinear_arith)
                requires
                    q >= x,
                    x >= 1,
            ;
        }
    }
}

/// One step of the iteration from `x >= s`: it stays at or above `s`, it
/// decreases while `x` is above `s`, and its quotient is small.
pub proof fn lemma_step_bounds(n: int, s: int, x: int)
    requires
        is_floor_sqrt(n, s),
        s >= 1,
        x >= s,
    ensures
        newton_step(n, x) >= s,
        x > s ==> newton_step(n, x) < x,
        0 <= n / x <= s + 2,
{
    lemma_step_lower(n, s, x);
    lemma_quotient(n, x);
    if x > s {
        lemma_step_decreases(n, s, x);
    }
    assert(n / x <= n / s) by {
        vstd::arithmetic::div_mod::lemma_div_is_ordered_by_denominator(n, s, x);
    }
    lemma_quotient(n, s);
    assert(n / s <= s + 2) by {
        let q = n / s;
        if q >= s + 3 {
            assert(s * q >= s * (s + 3)) by (nonlinear_arith)
                requires
                    q >= s + 3,
                    s >= 1,
            ;
            assert(s * (s + 3) == s * s + 3 * s) by (nonlinear_arith);
            assert((s + 1) * (s + 1) == s * s + 2 * s + 1) by (nonlinear_arith);
        }
    }
}

} // verus!
