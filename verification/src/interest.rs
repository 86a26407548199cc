//! Interest accrual: deterministic continuous compounding.
//!
//! A balance accrues as `balance * e^(rate * elapsed)`.  Because accrued
//! balances are persisted state that independent re-executions must agree on,
//! the exponential is not computed in floating point: rates are fixed-point
//! values with denominator [`SCALE`], and `e^x` is the truncated Taylor
//! series evaluated in integer arithmetic with every term floor-divided.
//! The series itself is the definition the code is held to; the exponent
//! `rate * elapsed` is capped at [`MAX_EXPONENT`] so that every intermediate
//! fits comfortably in machine words.

use vstd::arithmetic::div_mod::{
    lemma_div_is_ordered, lemma_div_is_ordered_by_denominator, lemma_div_multiples_vanish,
};
use vstd::arithmetic::mul::{lemma_mul_inequality, lemma_mul_is_commutative};
use vstd::prelude::*;

use crate::error::ErrorCode;

verus! {

/// Fixed-point denominator: a rate of `SCALE` is 1.0 per unit of time, and a
/// growth factor of `SCALE` multiplies a balance by exactly 1.
pub const SCALE: u64 = 1_000_000_000;

/// Largest accepted exponent `rate * elapsed`, as a fixed-point value: 2.0.
/// A larger exponent is rejected as an arithmetic failure rather than
/// evaluated; growth beyond `e^2` per accrual step is outside the range the
/// series is evaluated on.
pub const MAX_EXPONENT: u64 = 2_000_000_000;

/// Number of Taylor terms beyond the constant one; at the largest accepted
/// exponent the first dropped term is below one part in `SCALE`.
pub const TERMS: u64 = 20;

/// Term `k` of the fixed-point Taylor series of `e^x`: `SCALE * x^k / k!`
/// with `x` scaled by `SCALE`, each step floor-divided exactly as the
/// executable evaluation performs it.
pub open spec fn exp_term(x: nat, k: nat) -> nat
    decreases k,
{
    if k == 0 {
        SCALE as nat
    } else {
        exp_term(x, (k - 1) as nat) * x / (k * (SCALE as nat))
    }
}

/// Sum of the series terms `0 .. n`.
pub open spec fn exp_series(x: nat, n: nat) -> nat
    decreases n,
{
    if n == 0 {
        0
    } else {
        exp_series(x, (n - 1) as nat) + exp_term(x, (n - 1) as nat)
    }
}

/// The fixed-point growth factor `e^x`, scaled by `SCALE`: the series
/// truncated after [`TERMS`] non-constant terms.
pub open spec fn growth_factor(x: nat) -> nat {
    exp_series(x, (TERMS + 1) as nat)
}

/// The accrued balance: `balance * e^(rate * elapsed)`, evaluated on the
/// fixed-point series and rounded down.
pub open spec fn accrued_balance(balance: nat, rate: nat, elapsed: nat) -> nat {
    balance * growth_factor(rate * elapsed) / (SCALE as nat)
}

/// Every series term of an in-range exponent is at most `2 * SCALE`.
proof fn lemma_exp_term_bounded(x: nat, k: nat)
    requires
        x <= MAX_EXPONENT,
    ensures
        exp_term(x, k) <= 2 * SCALE,
    decreases k,
{
    if k == 0 {
    } else if k == 1 {
        assert(exp_term(x, 0) == SCALE as nat);
        assert(exp_term(x, 1) == (SCALE as nat) * x / (1 * (SCALE as nat)));
        lemma_mul_is_commutative(SCALE as int, x as int);
        lemma_div_multiples_vanish(x as int, SCALE as int);
        assert(exp_term(x, 1) == x);
    } else {
        lemma_exp_term_bounded(x, (k - 1) as nat);
        let prev = exp_term(x, (k - 1) as nat);
        lemma_mul_inequality(prev as int, 2 * SCALE as int, x as int);
        lemma_mul_inequality(x as int, 2 * SCALE as int, 2 * SCALE as int);
        assert(prev * x <= (2 * SCALE as int) * (2 * SCALE as int));
        lemma_div_is_ordered_by_denominator(
            (2 * SCALE as int) * (2 * SCALE as int),
            2 * SCALE as int,
            (k * (SCALE as nat)) as int,
        );
        lemma_div_is_ordered(
            (prev * x) as int,
            (2 * SCALE as int) * (2 * SCALE as int),
            (k * (SCALE as nat)) as int,
        );
        lemma_mul_is_commutative(2 * SCALE as int, 2 * SCALE as int);
        lemma_div_multiples_vanish(2 * SCALE as int, 2 * SCALE as int);
        assert((2 * SCALE as int) * (2 * SCALE as int) / (2 * SCALE as int) == 2 * SCALE as int);
    }
}

/// Every series partial sum of an in-range exponent is at most
/// `SCALE + 2 * SCALE * n`.
proof fn lemma_exp_series_bounded(x: nat, n: nat)
    requires
        x <= MAX_EXPONENT,
    ensures
        exp_series(x, n) <= SCALE + 2 * SCALE * n,
    decreases n,
{
    if n == 0 {
    } else {
        lemma_exp_series_bounded(x, (n - 1) as nat);
        lemma_exp_term_bounded(x, (n - 1) as nat);
        assert(2 * SCALE * ((n - 1) as nat) + 2 * SCALE == 2 * SCALE * n) by (nonlinear_arith)
            requires
                n >= 1,
        ;
    }
}

/// Series terms are monotone in the exponent.
proof fn lemma_exp_term_monotone(x1: nat, x2: nat, k: nat)
    requires
        x1 <= x2,
    ensures
        exp_term(x1, k) <= exp_term(x2, k),
    decreases k,
{
    if k > 0 {
        lemma_exp_term_monotone(x1, x2, (k - 1) as nat);
        let p1 = exp_term(x1, (k - 1) as nat);
        let p2 = exp_term(x2, (k - 1) as nat);
        lemma_mul_inequality(p1 as int, p2 as int, x1 as int);
        lemma_mul_is_commutative(p2 as int, x1 as int);
        lemma_mul_is_commutative(p2 as int, x2 as int);
        lemma_mul_inequality(x1 as int, x2 as int, p2 as int);
        assert(p1 * x1 <= p2 * x2);
        lemma_div_is_ordered((p1 * x1) as int, (p2 * x2) as int, (k * (SCALE as nat)) as int);
    }
}

/// Series partial sums are monotone in the exponent.
proof fn lemma_exp_series_monotone(x1: nat, x2: nat, n: nat)
    requires
        x1 <= x2,
    ensures
        exp_series(x1, n) <= exp_series(x2, n),
    decreases n,
{
    if n > 0 {
        lemma_exp_series_monotone(x1, x2, (n - 1) as nat);
        lemma_exp_term_monotone(x1, x2, (n - 1) as nat);
    }
}

/// At exponent zero every term beyond the constant one vanishes.
proof fn lemma_exp_term_zero(k: nat)
    ensures
        k > 0 ==> exp_term(0, k) == 0,
    decreases k,
{
    if k > 1 {
        lemma_exp_term_zero((k - 1) as nat);
    }
}

/// At exponent zero the series sums to exactly `SCALE`.
proof fn lemma_exp_series_zero(n: nat)
    requires
        n > 0,
    ensures
        exp_series(0, n) == SCALE,
    decreases n,
{
    if n == 1 {
        assert(exp_series(0, 0) == 0);
        assert(exp_term(0, 0) == SCALE as nat);
    } else {
        lemma_exp_series_zero((n - 1) as nat);
        lemma_exp_term_zero((n - 1) as nat);
        assert(exp_series(0, n) == exp_series(0, (n - 1) as nat) + exp_term(0, (n - 1) as nat));
    }
}

/// The growth factor never falls below `SCALE`: compounding never shrinks a
/// balance.
pub proof fn lemma_growth_factor_at_least_one(x: nat)
    ensures
        growth_factor(x) >= SCALE,
{
    assert(growth_factor(x) >= exp_term(x, 0)) by {
        lemma_exp_series_monotone_in_terms(x, 1, (TERMS + 1) as nat);
    }
}

/// Partial sums are monotone in the number of terms.
proof fn lemma_exp_series_monotone_in_terms(x: nat, n1: nat, n2: nat)
    requires
        n1 <= n2,
    ensures
        exp_series(x, n1) <= exp_series(x, n2),
    decreases n2,
{
    if n1 < n2 {
        lemma_exp_series_monotone_in_terms(x, n1, (n2 - 1) as nat);
    }
}

/// Monotonicity of accrual in elapsed time, for any fixed rate: waiting
/// longer never accrues less, and waiting no time at all accrues nothing.
pub proof fn lemma_accrual_monotonic(balance: nat, rate: nat, t1: nat, t2: nat)
    requires
        t1 <= t2,
    ensures
        accrued_balance(balance, rate, t1) <= accrued_balance(balance, rate, t2),
        accrued_balance(balance, rate, 0) == balance,
{
    lemma_mul_inequality(t1 as int, t2 as int, rate as int);
    lemma_mul_is_commutative(rate as int, t1 as int);
    lemma_mul_is_commutative(rate as int, t2 as int);
    lemma_exp_series_monotone(rate * t1, rate * t2, (TERMS + 1) as nat);
    lemma_mul_inequality(
        growth_factor(rate * t1) as int,
        growth_factor(rate * t2) as int,
        balance as int,
    );
    lemma_mul_is_commutative(balance as int, growth_factor(rate * t1) as int);
    lemma_mul_is_commutative(balance as int, growth_factor(rate * t2) as int);
    lemma_div_is_ordered(
        (balance * growth_factor(rate * t1)) as int,
        (balance * growth_factor(rate * t2)) as int,
        SCALE as int,
    );
    lemma_exp_series_zero((TERMS + 1) as nat);
    assert(growth_factor(0) == SCALE);
    lemma_mul_is_commutative(balance as int, SCALE as int);
    lemma_div_multiples_vanish(balance as int, SCALE as int);
}

/// Accrual never returns less than the balance it started from.
pub proof fn lemma_accrual_at_least_balance(balance: nat, rate: nat, elapsed: nat)
    ensures
        accrued_balance(balance, rate, elapsed) >= balance,
        balance == 0 ==> accrued_balance(balance, rate, elapsed) == 0,
{
    lemma_growth_factor_at_least_one(rate * elapsed);
    lemma_mul_inequality(SCALE as int, growth_factor(rate * elapsed) as int, balance as int);
    lemma_mul_is_commutative(balance as int, SCALE as int);
    lemma_mul_is_commutative(balance as int, growth_factor(rate * elapsed) as int);
    lemma_div_is_ordered(
        (balance * (SCALE as nat)) as int,
        (balance * growth_factor(rate * elapsed)) as int,
        SCALE as int,
    );
    lemma_div_multiples_vanish(balance as int, SCALE as int);
}

/// Accrue `balance` at fixed-point `rate` over `elapsed` time units.
///
/// Fails with `ArithmeticError` when the exponent `rate * elapsed` exceeds
/// [`MAX_EXPONENT`] or the accrued balance no longer fits in 64 bits; it
/// never saturates or wraps.
pub fn accrue(balance: u64, rate: u64, elapsed: u64) -> (r: Result<u64, ErrorCode>)
    ensures
        rate * elapsed > MAX_EXPONENT ==> r == Err::<u64, ErrorCode>(ErrorCode::ArithmeticError),
        rate * elapsed <= MAX_EXPONENT ==> r == (if accrued_balance(
            balance as nat,
            rate as nat,
            elapsed as nat,
        ) > u64::MAX {
            Err::<u64, ErrorCode>(ErrorCode::ArithmeticError)
        } else {
            Ok::<u64, ErrorCode>(accrued_balance(balance as nat, rate as nat, elapsed as nat) as u64)
        }),
{
    proof {
        assert((rate as int) * (elapsed as int) <= u128::MAX) by (nonlinear_arith)
            requires
                rate <= u64::MAX,
                elapsed <= u64::MAX,
        ;
    }
    let exponent_wide: u128 = (rate as u128) * (elapsed as u128);
    if exponent_wide > MAX_EXPONENT as u128 {
        return Err(ErrorCode::ArithmeticError);
    }
    let x: u64 = exponent_wide as u64;
    let mut term: u64 = SCALE;
    let mut sum: u64 = SCALE;
    let mut k: u64 = 1;
    proof {
        assert(exp_series(x as nat, 0) == 0);
        assert(exp_term(x as nat, 0) == SCALE as nat);
        assert(exp_series(x as nat, 1) == SCALE as nat);
    }
    while k <= TERMS
        invariant
            1 <= k <= TERMS + 1,
            x <= MAX_EXPONENT,
            term == exp_term(x as nat, (k - 1) as nat),
            sum == exp_series(x as nat, k as nat),
        decreases TERMS + 1 - k,
    {
        proof {
            lemma_exp_term_bounded(x as nat, (k - 1) as nat);
            assert((term as int) * (x as int) <= (2 * SCALE as int) * (2 * SCALE as int))
                by (nonlinear_arith)
                requires
                    term <= 2 * SCALE,
                    x <= 2 * SCALE,
            ;
            lemma_exp_series_bounded(x as nat, k as nat);
            lemma_exp_term_bounded(x as nat, k as nat);
        }
        term = (term * x) / (k * SCALE);
        sum = sum + term;
        k = k + 1;
    }
    assert(sum == growth_factor(x as nat));
    proof {
        assert((balance as int) * (sum as int) <= u128::MAX) by (nonlinear_arith)
            requires
                balance <= u64::MAX,
                sum <= u64::MAX,
        ;
    }
    let accrued_wide: u128 = (balance as u128) * (sum as u128) / (SCALE as u128);
    if accrued_wide <= u64::MAX as u128 {
        Ok(accrued_wide as u64)
    } else {
        Err(ErrorCode::ArithmeticError)
    }
}

} // verus!
