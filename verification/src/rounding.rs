//! Division rounded to the nearest integer, the one place where the library
//! gives up exactness.

use vstd::arithmetic::div_mod::*;
use vstd::prelude::*;

verus! {

/// The quotient of `n` by `d` rounded to the nearest integer; a quotient that
/// lies exactly halfway between two integers goes to the even one.
pub open spec fn round_div(n: int, d: int) -> int
    recommends
        n >= 0,
        d > 0,
{
    let q: int = n / d;
    let r: int = n % d;
    if 2 * r > d || (2 * r == d && q % 2 == 1) {
        q + 1
    } else {
        q
    }
}

/// The rounded quotient is never negative and lies within half a step of the
/// exact one: `|n - q * d| <= d / 2`, written without fractions.
pub proof fn lemma_round_div_bounds(n: int, d: int)
    requires
        n >= 0,
        d > 0,
    ensures
        round_div(n, d) >= 0,
        (2 * round_div(n, d) - 1) * d <= 2 * n,
        2 * n <= (2 * round_div(n, d) + 1) * d,
{
    let q: int = n / d;
    let r: int = n % d;
    lemma_fundamental_div_mod(n, d);
    lemma_div_pos_is_pos(n, d);
    lemma_mod_bound(n, d);
    assert(n == d * q + r);
    assert((2 * q + 1) * d == 2 * (d * q) + d) by (nonlinear_arith);
    assert((2 * q - 1) * d == 2 * (d * q) - d) by (nonlinear_arith);
    assert((2 * (q + 1) + 1) * d == 2 * (d * q) + 3 * d) by (nonlinear_arith);
    assert((2 * (q + 1) - 1) * d == 2 * (d * q) + d) by (nonlinear_arith);
}

/// A larger dividend never gives a smaller rounded quotient.
pub proof fn lemma_round_div_monotonic(n1: int, n2: int, d: int)
    requires
        0 <= n1 <= n2,
        d > 0,
    ensures
        round_div(n1, d) <= round_div(n2, d),
{
    lemma_fundamental_div_mod(n1, d);
    lemma_fundamental_div_mod(n2, d);
    lemma_mod_bound(n1, d);
    lemma_mod_bound(n2, d);
    lemma_div_is_ordered(n1, n2, d);
    let q1: int = n1 / d;
    let q2: int = n2 / d;
    if q1 == q2 {
        assert(n1 % d <= n2 % d);
    }
}

/// A smaller divisor never gives a smaller rounded quotient.
pub proof fn lemma_round_div_antitonic(n: int, d1: int, d2: int)
    requires
        n >= 0,
        0 < d2 <= d1,
    ensures
        round_div(n, d1) <= round_div(n, d2),
{
    let q1: int = round_div(n, d1);
    let q2: int = round_div(n, d2);
    lemma_round_div_bounds(n, d1);
    lemma_round_div_bounds(n, d2);
    if q1 > q2 {
        // Both bounds then meet at 2n, which forces equal divisors.
        assert(d1 == d2) by (nonlinear_arith)
            requires
                0 < d2 <= d1,
                q1 > q2,
                q2 >= 0,
                (2 * q1 - 1) * d1 <= 2 * n,
                2 * n <= (2 * q2 + 1) * d2,
        ;
    }
}

/// Divides `n` by `d`, rounding to the nearest integer with ties to even.
pub fn div_round(n: u128, d: u128) -> (q: u128)
    requires
        d > 0,
    ensures
        q == round_div(n as int, d as int),
{
    let quotient: u128 = n / d;
    let remainder: u128 = n % d;
    let rest: u128 = d - remainder;
    if remainder > rest || (remainder == rest && quotient % 2 == 1) {
        proof {
            // Rounding up needs a remainder, hence a divisor of at least 2.
            lemma_fundamental_div_mod(n as int, d as int);
            assert(quotient < u128::MAX) by (nonlinear_arith)
                requires
                    n == d * quotient + remainder,
                    remainder > 0,
                    d > remainder,
                    n <= u128::MAX,
            ;
        }
        quotient + 1
    } else {
        quotient
    }
}

} // verus!
