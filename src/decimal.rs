//! Exact fixed-point arithmetic with round-half-to-even ("banker's") rounding.

use vstd::arithmetic::div_mod::lemma_fundamental_div_mod_converse;
use vstd::prelude::*;

verus! {

/// Number of decimal places of every money amount.
pub const DECIMALS: u8 = 3;

/// Scaling factor of money amounts: `10^DECIMALS`.
pub const SCALE: i64 = 1000;

/// Scaling factor of dimensionless rates (fees, margin requirements).
pub const RATE_SCALE: i64 = 1_000_000;

/// Largest magnitude a scaled amount may take; `i64::MIN` is excluded so that
/// negation never overflows.
pub const MAX_MANTISSA: i64 = 0x7fff_ffff_ffff_ffff;

/// A mantissa that a scaled amount can hold.
pub open spec fn fits(v: int) -> bool {
    -MAX_MANTISSA <= v <= MAX_MANTISSA
}

/// `n / d` rounded to the nearest integer, ties to the even neighbour.
pub open spec fn round_half_even(n: int, d: int) -> int
    recommends
        d > 0,
{
    let q = n / d;
    let r = n % d;
    if 2 * r < d {
        q
    } else if 2 * r > d {
        q + 1
    } else if q % 2 == 0 {
        q
    } else {
        q + 1
    }
}

/// Rounding half to even is symmetric around zero.
pub proof fn lemma_round_half_even_neg(n: int, d: int)
    requires
        d > 0,
    ensures
        round_half_even(-n, d) == -round_half_even(n, d),
{
    let q = n / d;
    let r = n % d;
    assert(n == q * d + r) by {
        vstd::arithmetic::div_mod::lemma_fundamental_div_mod(n, d);
        vstd::arithmetic::mul::lemma_mul_is_commutative(q, d);
    }
    assert(0 <= r < d) by {
        vstd::arithmetic::div_mod::lemma_mod_bound(n, d);
    }
    if r == 0 {
        assert(-n == (-q) * d + 0) by (nonlinear_arith)
            requires
                n == q * d + r,
                r == 0,
        ;
        lemma_fundamental_div_mod_converse(-n, d, -q, 0);
    } else {
        assert(-n == (-q - 1) * d + (d - r)) by (nonlinear_arith)
            requires
                n == q * d + r,
        ;
        lemma_fundamental_div_mod_converse(-n, d, -q - 1, d - r);
        assert((-q - 1) % 2 == 0 <==> q % 2 != 0);
    }
}

/// Rounding half to even moves a quotient by less than one unit.
pub proof fn lemma_round_half_even_bounds(n: int, d: int)
    requires
        d > 0,
    ensures
        n / d <= round_half_even(n, d) <= n / d + 1,
{
}

/// A quotient that is exact needs no rounding.
pub proof fn lemma_round_half_even_exact(q: int, d: int)
    requires
        d > 0,
    ensures
        round_half_even(q * d, d) == q,
{
    lemma_fundamental_div_mod_converse(q * d, d, q, 0);
}

/// Computes `round_half_even(n, d)`.
pub fn div_round_half_even(n: i128, d: i128) -> (r: i128)
    requires
        d > 0,
        i128::MIN < n - 1,
        n < i128::MAX,
    ensures
        r == round_half_even(n as int, d as int),
{
    if n >= 0 {
        let q = n / d;
        let m = n % d;
        assert(q <= n) by {
            vstd::arithmetic::div_mod::lemma_div_is_ordered_by_denominator(n as int, 1, d as int);
        }
        if m < d - m {
            q
        } else if m > d - m {
            q + 1
        } else if q % 2 == 0 {
            q
        } else {
            q + 1
        }
    } else {
        let p = -n;
        let q = p / d;
        let m = p % d;
        assert(q <= p) by {
            vstd::arithmetic::div_mod::lemma_div_is_ordered_by_denominator(p as int, 1, d as int);
        }
        let up: i128 = if m < d - m {
            q
        } else if m > d - m {
            q + 1
        } else if q % 2 == 0 {
            q
        } else {
            q + 1
        };
        proof {
            lemma_round_half_even_neg(p as int, d as int);
        }
        -up
    }
}

} // verus!

verus! {

/// Rounding a non-negative quotient stays non-negative.
pub proof fn lemma_round_half_even_nonneg(n: int, d: int)
    requires
        d > 0,
        n >= 0,
    ensures
        round_half_even(n, d) >= 0,
{
    vstd::arithmetic::div_mod::lemma_div_pos_is_pos(n, d);
}

/// A quotient of at least one rounds to at least one.
pub proof fn lemma_round_half_even_pos(n: int, d: int)
    requires
        d > 0,
        n >= d,
    ensures
        round_half_even(n, d) >= 1,
{
    vstd::arithmetic::div_mod::lemma_div_is_ordered(d, n, d);
    vstd::arithmetic::div_mod::lemma_div_by_self(d);
}

} // verus!
