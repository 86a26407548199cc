//! Share accounting: floor-rounded pro-rata conversion between amounts and
//! shares of a pool.
//!
//! A pool records a total amount together with the total shares outstanding
//! against it.  Converting between the two scales a quantity by the ratio of
//! the totals, as a single multiply-then-divide over a wide intermediate so
//! that small quantities against a large pool do not truncate to zero.  When
//! the pool is empty (both totals zero) the conversion is one-to-one: the
//! first depositor or borrower bootstraps the pool at one share per unit.

use vstd::arithmetic::div_mod::{
    lemma_div_is_ordered, lemma_div_multiples_vanish, lemma_fundamental_div_mod,
    lemma_fundamental_div_mod_converse, lemma_mod_division_less_than_divisor,
    lemma_multiply_divide_lt,
};
use vstd::arithmetic::mul::{
    lemma_mul_inequality, lemma_mul_is_commutative, lemma_mul_is_distributive_add,
    lemma_mul_strict_inequality,
};
use vstd::prelude::*;

use crate::error::ErrorCode;

verus! {

/// Pro-rata conversion of `x`, measured against `from_total`, into the scale
/// of `to_total`, rounding down.
///
/// This is the shared meaning of both conversion directions:
/// `amount_to_shares` reads it with the pool amount as `from_total`, and
/// `shares_to_amount` with the pool shares as `from_total`.  An empty pool
/// converts one-to-one; a pool whose totals disagree about being zero is
/// corrupt; a result that does not fit in 64 bits is an arithmetic failure.
pub open spec fn pro_rata(x: u64, from_total: u64, to_total: u64) -> Result<u64, ErrorCode> {
    if from_total == 0 && to_total == 0 {
        Ok(x)
    } else if from_total == 0 || to_total == 0 {
        Err(ErrorCode::CorruptState)
    } else if x * to_total / (from_total as int) > u64::MAX {
        Err(ErrorCode::ArithmeticError)
    } else {
        Ok((x * to_total / (from_total as int)) as u64)
    }
}

/// Floor-rounded pro-rata conversion over a 128-bit intermediate.
fn convert(x: u64, from_total: u64, to_total: u64) -> (r: Result<u64, ErrorCode>)
    ensures
        r == pro_rata(x, from_total, to_total),
{
    if from_total == 0 && to_total == 0 {
        Ok(x)
    } else if from_total == 0 || to_total == 0 {
        Err(ErrorCode::CorruptState)
    } else {
        proof {
            assert((x as int) * (to_total as int) <= u128::MAX) by (nonlinear_arith)
                requires
                    x <= u64::MAX,
                    to_total <= u64::MAX,
            ;
        }
        let wide: u128 = (x as u128) * (to_total as u128);
        let scaled: u128 = wide / (from_total as u128);
        if scaled <= u64::MAX as u128 {
            Ok(scaled as u64)
        } else {
            Err(ErrorCode::ArithmeticError)
        }
    }
}

/// A conversion of no more than the whole of `from_total` always succeeds,
/// never yields more than the whole of `to_total`, converts the whole
/// exactly, and converts a strict part to a strict part.  This is what keeps
/// a pool's amount and shares agreeing about being zero across withdrawals
/// and repayments.
pub proof fn lemma_pro_rata_bounds(x: u64, from_total: u64, to_total: u64)
    requires
        from_total > 0,
        to_total > 0,
        x <= from_total,
    ensures
        pro_rata(x, from_total, to_total) is Ok,
        pro_rata(x, from_total, to_total)->Ok_0 <= to_total,
        x == from_total ==> pro_rata(x, from_total, to_total) == Ok::<u64, ErrorCode>(to_total),
        x < from_total ==> pro_rata(x, from_total, to_total)->Ok_0 < to_total,
{
    let v = x * to_total / (from_total as int);
    lemma_mul_inequality(x as int, from_total as int, to_total as int);
    lemma_mul_is_commutative(from_total as int, to_total as int);
    lemma_div_is_ordered(
        (x as int) * (to_total as int),
        (from_total as int) * (to_total as int),
        from_total as int,
    );
    lemma_div_multiples_vanish(to_total as int, from_total as int);
    assert(v <= to_total);
    if x == from_total {
        assert(v == to_total);
    }
    if x < from_total {
        lemma_mul_strict_inequality(x as int, from_total as int, to_total as int);
        lemma_multiply_divide_lt(
            (x as int) * (to_total as int),
            from_total as int,
            to_total as int,
        );
        assert(v < to_total);
    }
}

/// Converting an amount into shares right after the same amount was
/// deposited undoes the deposit exactly: with `s1 = a * s / t` shares minted
/// against a pool of `t` and `s`, converting `a` back against the grown pool
/// `(t + a, s + s1)` yields `s1` again, with no rounding drift at all.
pub proof fn lemma_pro_rata_inverse(a: int, t: int, s: int)
    requires
        t > 0,
        s > 0,
        a >= 0,
    ensures
        a * (s + a * s / t) / (t + a) == a * s / t,
{
    let s1 = a * s / t;
    let r = (a * s) % t;
    lemma_fundamental_div_mod(a * s, t);
    lemma_mod_division_less_than_divisor(a * s, t);
    lemma_mul_is_distributive_add(a, s, s1);
    assert(a * (s + s1) == a * s + a * s1);
    assert(a * s == t * s1 + r);
    lemma_mul_is_commutative(t, s1);
    lemma_mul_is_commutative(a, s1);
    lemma_mul_is_distributive_add(s1, t, a);
    assert(s1 * (t + a) == s1 * t + s1 * a);
    assert(a * (s + s1) == s1 * (t + a) + r);
    lemma_fundamental_div_mod_converse(a * (s + s1), t + a, s1, r);
}

/// Convert a deposit or borrow amount into the shares it is worth against a
/// pool holding `pool_total_amount` across `pool_total_shares`.
pub fn amount_to_shares(amount: u64, pool_total_amount: u64, pool_total_shares: u64) -> (r: Result<
    u64,
    ErrorCode,
>)
    ensures
        r == pro_rata(amount, pool_total_amount, pool_total_shares),
{
    convert(amount, pool_total_amount, pool_total_shares)
}

/// Convert shares back into the amount they are worth against a pool holding
/// `pool_total_amount` across `pool_total_shares`.
pub fn shares_to_amount(shares: u64, pool_total_amount: u64, pool_total_shares: u64) -> (r: Result<
    u64,
    ErrorCode,
>)
    ensures
        r == pro_rata(shares, pool_total_shares, pool_total_amount),
{
    convert(shares, pool_total_shares, pool_total_amount)
}

} // verus!
