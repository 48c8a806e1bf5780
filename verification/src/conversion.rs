//! Earth timestamp to Martian sol number.
//!
//! A sol lasts 88775.245 seconds. The sol number of an instant is the number
//! of whole or partial sols elapsed since the mission's landing instant: a
//! started fraction of a sol counts as the next sol (a ceiling), and instants
//! before landing give zero or negative sol numbers.

use vstd::arithmetic::div_mod::{lemma_fundamental_div_mod, lemma_fundamental_div_mod_converse};
use vstd::arithmetic::mul::lemma_mul_strict_inequality_converse;
use vstd::prelude::*;

verus! {

/// The mission's landing instant, 2012-08-06 05:17:00 UTC, in Unix seconds.
pub const LANDING_TIMESTAMP: i64 = 1344230220;

/// The length of one Martian solar day, in milliseconds (88775.245 seconds).
pub const SOL_MILLIS: i64 = 88775245;

/// Ceiling of `a / b` for `b > 0` (spec `/` is Euclidean, so `a / b` floors).
pub open spec fn ceil_div(a: int, b: int) -> int {
    if a % b == 0 {
        a / b
    } else {
        a / b + 1
    }
}

/// The sol number an instant falls in: seconds since landing, divided by the
/// sol length, rounded up. Working in milliseconds keeps the quotient exact.
pub open spec fn sol_number(timestamp: int) -> int {
    ceil_div(1000 * (timestamp - LANDING_TIMESTAMP), SOL_MILLIS as int)
}

/// The ceiling law: for a delta of `d` seconds, the sol number of
/// `landing + d` is the ceiling of `d / 88775.245` — so a delta of zero is
/// sol 0, not sol 1, and any started fraction of a sol counts as the next
/// sol.
pub proof fn lemma_ceiling_law(d: int)
    ensures
        sol_number(LANDING_TIMESTAMP + d) == ceil_div(1000 * d, SOL_MILLIS as int),
{
}

/// Number of Martian sols elapsed since the landing date at `timestamp`
/// (Unix seconds). Any timestamp is valid input; timestamps at or before
/// landing give zero or negative results.
pub fn calculate_no_of_martian_sol_elapsed(timestamp: i64) -> (sol: i64)
    ensures
        sol == sol_number(timestamp as int),
{
    let delta: i128 = (timestamp as i128) - (LANDING_TIMESTAMP as i128);
    let num: i128 = delta * 1000;
    let b: u128 = SOL_MILLIS as u128;
    if num >= 0 {
        let n: u128 = num as u128;
        let q: u128 = (n + (b - 1)) / b;
        proof {
            lemma_ceil_div_nonneg(n as int, b as int);
            lemma_quotient_small(q as int, b as int, n as int + b as int - 1);
        }
        q as i64
    } else {
        let m: u128 = (-num) as u128;
        let q: u128 = m / b;
        proof {
            lemma_ceil_div_neg(num as int, b as int);
            lemma_quotient_small(q as int, b as int, m as int);
        }
        -(q as i64)
    }
}

/// For `a >= 0` and `b > 0`, the ceiling of `a / b` is `(a + b - 1) / b`.
proof fn lemma_ceil_div_nonneg(a: int, b: int)
    requires
        a >= 0,
        b > 0,
    ensures
        ceil_div(a, b) == (a + b - 1) / b,
{
    lemma_fundamental_div_mod(a, b);
    let k = a / b;
    let r = a % b;
    if r == 0 {
        assert(a + b - 1 == k * b + (b - 1)) by (nonlinear_arith)
            requires
                a == b * k + r,
                r == 0,
        ;
        lemma_fundamental_div_mod_converse(a + b - 1, b, k, b - 1);
    } else {
        assert(a + b - 1 == (k + 1) * b + (r - 1)) by (nonlinear_arith)
            requires
                a == b * k + r,
        ;
        lemma_fundamental_div_mod_converse(a + b - 1, b, k + 1, r - 1);
    }
}

/// For `a < 0` and `b > 0`, the ceiling of `a / b` is `-((-a) / b)`.
proof fn lemma_ceil_div_neg(a: int, b: int)
    requires
        a < 0,
        b > 0,
    ensures
        ceil_div(a, b) == -((-a) / b),
{
    lemma_fundamental_div_mod(a, b);
    let k = a / b;
    let r = a % b;
    if r == 0 {
        assert(-a == (-k) * b + 0) by (nonlinear_arith)
            requires
                a == b * k + r,
                r == 0,
        ;
        lemma_fundamental_div_mod_converse(-a, b, -k, 0);
    } else {
        assert(-a == (-k - 1) * b + (b - r)) by (nonlinear_arith)
            requires
                a == b * k + r,
        ;
        lemma_fundamental_div_mod_converse(-a, b, -k - 1, b - r);
    }
}

/// A quotient by `b` of a dividend below `b * 0x8000_0000_0000_0000` fits in
/// 63 bits.
proof fn lemma_quotient_small(q: int, b: int, x: int)
    requires
        b > 0,
        0 <= x,
        q == x / b,
        x < b * 0x8000_0000_0000_0000,
    ensures
        0 <= q < 0x8000_0000_0000_0000,
{
    lemma_fundamental_div_mod(x, b);
    let r = x % b;
    if q < 0 {
        assert(b * q + r < 0) by (nonlinear_arith)
            requires
                b > 0,
                q <= -1,
                r < b,
        ;
        assert(false);
    }
    assert(q * b < (0x8000_0000_0000_0000) * b) by (nonlinear_arith)
        requires
            b > 0,
            0 <= r,
            x == b * q + r,
            x < b * 0x8000_0000_0000_0000,
    ;
    lemma_mul_strict_inequality_converse(q, 0x8000_0000_0000_0000, b);
}

} // verus!
