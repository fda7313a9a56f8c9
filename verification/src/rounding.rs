//! Integer division that rounds to the nearest quotient, the powers of two
//! and ten that the number formats are built from, and the search for the
//! number with the fewest decimal digits in an interval.

use vstd::prelude::*;
use vstd::arithmetic::power2::*;
use vstd::arithmetic::div_mod::*;
use vstd::arithmetic::mul::*;

verus! {

/// `n / d` rounded to the nearest integer, ties to the even one.
pub open spec fn half_even(n: nat, d: nat) -> nat
    recommends
        d > 0,
{
    let q = n / d;
    let r = n % d;
    if 2 * r > d || (2 * r == d && q % 2 == 1) {
        q + 1
    } else {
        q
    }
}

/// `n / d` rounded to the nearest integer, ties away from zero.
pub open spec fn half_up(n: nat, d: nat) -> nat
    recommends
        d > 0,
{
    (n + d / 2) / d
}

/// 10^j.
pub open spec fn pow10(j: nat) -> nat
    decreases j,
{
    if j == 0 {
        1
    } else {
        10 * pow10((j - 1) as nat)
    }
}

/// The number with the fewest significant decimal digits that lies in the
/// interval around `v` reaching `q2 / 2` below and `p2 / 2` above it
/// (endpoints included when `inclusive`), searching the decimal positions
/// 10^j downward from the given one: at the first position where the
/// multiple of 10^j at or below `v`, or the next one, lies in the interval,
/// the nearer of the two that does (ties to the upper one).
pub open spec fn shortest_in_interval(v: nat, q2: nat, p2: nat, inclusive: bool, j: nat) -> nat
    decreases j,
{
    let t = pow10(j);
    let rem = v % t;
    let down_ok = 2 * rem < q2 || (inclusive && 2 * rem == q2);
    let up_ok = 2 * (t - rem) < p2 || (inclusive && 2 * (t - rem) == p2);
    if down_ok || up_ok {
        if up_ok && (!down_ok || 2 * rem >= t) {
            (v - rem + t) as nat
        } else {
            (v - rem) as nat
        }
    } else if j == 0 {
        v
    } else {
        shortest_in_interval(v, q2, p2, inclusive, (j - 1) as nat)
    }
}

/// 2^k as a machine integer.
pub fn pow2_u128(k: u32) -> (r: u128)
    requires
        k < 128,
    ensures
        r == pow2(k as nat),
{
    let mut r: u128 = 1;
    let mut i: u32 = 0;
    proof {
        lemma2_to64();
    }
    while i < k
        invariant
            i <= k < 128,
            r == pow2(i as nat),
        decreases k - i,
    {
        proof {
            lemma_pow2_unfold((i + 1) as nat);
            lemma_pow2_strictly_increases((i + 1) as nat, 128);
            lemma_pow2_adds(64, 64);
            lemma2_to64();
        }
        r = r * 2;
        i = i + 1;
    }
    r
}

/// Quotient and remainder of `n * c` by `d * c`.
pub proof fn lemma_div_common_factor(n: nat, d: nat, c: nat)
    requires
        d > 0,
        c > 0,
    ensures
        (n * c) / (d * c) == n / d,
        (n * c) % (d * c) == (n % d) * c,
{
    let q = n / d;
    let r = n % d;
    lemma_fundamental_div_mod(n as int, d as int);
    assert(n * c == q * (d * c) + r * c) by (nonlinear_arith)
        requires
            n == q * d + r,
    ;
    assert(0 <= r * c < d * c) by (nonlinear_arith)
        requires
            0 <= r < d,
            c > 0,
    ;
    lemma_fundamental_div_mod_converse((n * c) as int, (d * c) as int, q as int, (r * c) as int);
}

/// Rounding to the nearest quotient ignores a factor common to both sides.
pub proof fn lemma_half_even_common_factor(n: nat, d: nat, c: nat)
    requires
        d > 0,
        c > 0,
    ensures
        half_even(n * c, d * c) == half_even(n, d),
        half_up(n * c, d * c) == half_up(n, d) || d % 2 == 1,
{
    lemma_div_common_factor(n, d, c);
    let r = n % d;
    assert((2 * (r * c) > d * c) == (2 * r > d)) by (nonlinear_arith)
        requires
            c > 0,
    ;
    assert((2 * (r * c) == d * c) == (2 * r == d)) by (nonlinear_arith)
        requires
            c > 0,
    ;
    if d % 2 == 0 {
        let h = d / 2;
        assert(d == 2 * h);
        assert((d * c) / 2 == h * c) by (nonlinear_arith)
            requires
                d == 2 * h,
        ;
        assert(n * c + h * c == (n + h) * c) by (nonlinear_arith);
        lemma_div_common_factor(n + h, d, c);
    }
}

/// Rounding to the nearest quotient lands on the quotient or the next
/// number, and grows with the numerator.
pub proof fn lemma_half_even_monotone(n1: nat, n2: nat, d: nat)
    requires
        n1 <= n2,
        d > 0,
    ensures
        n1 / d <= half_even(n1, d) <= n1 / d + 1,
        half_even(n1, d) <= half_even(n2, d),
{
    lemma_div_is_ordered(n1 as int, n2 as int, d as int);
    lemma_fundamental_div_mod(n1 as int, d as int);
    lemma_fundamental_div_mod(n2 as int, d as int);
}

/// A multiple of the denominator rounds to its exact quotient.
pub proof fn lemma_half_even_exact(c: nat, d: nat)
    requires
        d > 0,
    ensures
        half_even(c * d, d) == c,
{
    lemma_fundamental_div_mod_converse((c * d) as int, d as int, c as int, 0);
}

/// A numerator below the denominator gives the quotient zero.
pub proof fn lemma_small_quotient(n: nat, d: nat)
    requires
        n < d,
    ensures
        n / d == 0,
        n % d == n,
{
    lemma_fundamental_div_mod_converse(n as int, d as int, 0, n as int);
}

/// The number with the fewest significant decimal digits in the interval
/// around `v`, searched from the position 10^38 down.
pub fn shortest_decimal(v: u128, q2: u128, p2: u128, inclusive: bool) -> (r: u128)
    requires
        p2 <= q2 * 2,
        v + p2 / 2 <= u128::MAX,
    ensures
        r == shortest_in_interval(v as nat, q2 as nat, p2 as nat, inclusive, 38),
{
    let mut j: u32 = 38;
    let mut t: u128 = 100_000_000_000_000_000_000_000_000_000_000_000_000;
    proof {
        reveal_with_fuel(pow10, 39);
    }
    loop
        invariant
            j <= 38,
            t == pow10(j as nat),
            t <= 100_000_000_000_000_000_000_000_000_000_000_000_000,
            v + p2 / 2 <= u128::MAX,
            shortest_in_interval(v as nat, q2 as nat, p2 as nat, inclusive, 38)
                == shortest_in_interval(v as nat, q2 as nat, p2 as nat, inclusive, j as nat),
        decreases j,
    {
        proof {
            lemma_pow10_pos(j as nat);
        }
        let rem = v % t;
        proof {
            lemma_mod_decreases(v as nat, t as nat);
        }
        let down_ok = 2 * rem < q2 || (inclusive && 2 * rem == q2);
        let up_ok = 2 * (t - rem) < p2 || (inclusive && 2 * (t - rem) == p2);
        if down_ok || up_ok {
            if up_ok && (!down_ok || 2 * rem >= t) {
                return v - rem + t;
            } else {
                return v - rem;
            }
        }
        if j == 0 {
            return v;
        }
        j = j - 1;
        t = t / 10;
    }
}

/// 10^j is positive.
pub proof fn lemma_pow10_pos(j: nat)
    ensures
        pow10(j) >= 1,
    decreases j,
{
    if j > 0 {
        lemma_pow10_pos((j - 1) as nat);
    }
}

} // verus!
