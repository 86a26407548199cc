//! Collateral valuation: pricing an interest-adjusted deposit and deriving
//! the borrowable limit from it.
//!
//! The price itself comes from an external oracle; the host hands this module
//! the oracle's answer as plain values (a price and its publish timestamp).
//! The staleness rule, the interest adjustment and the limit arithmetic are
//! all decided here.

use vstd::prelude::*;

use crate::error::ErrorCode;
use crate::interest::{accrue, accrued_balance, MAX_EXPONENT};

verus! {

/// A price observation as reported by the external price oracle: the price
/// of one unit of the asset in the common valuation unit, and the time the
/// observation was published.
#[derive(Clone, Copy, Debug, PartialEq, Eq, Structural)]
pub struct PriceData {
    /// Price of one unit of the asset.
    pub price: u64,
    /// Timestamp at which the oracle published this price.
    pub publish_time: u64,
}

/// A price observation is fresh at `now` when it is no older than `max_age`.
pub open spec fn price_fresh(price: PriceData, now: u64, max_age: u64) -> bool {
    now <= price.publish_time + max_age
}

/// The collateral value of a deposit: the deposited amount accrued from
/// `last_update` to `now`, multiplied by the collateral asset's price.
///
/// A stale price is rejected before anything is computed; a clock reading
/// earlier than the position's own last update is a state-consistency
/// failure, never an inverted accrual.
pub open spec fn collateral_value_spec(
    deposited_amount: u64,
    interest_rate: u64,
    last_update: u64,
    price: PriceData,
    max_age: u64,
    now: u64,
) -> Result<u64, ErrorCode> {
    if !price_fresh(price, now, max_age) {
        Err(ErrorCode::StalePrice)
    } else if now < last_update {
        Err(ErrorCode::ArithmeticError)
    } else if interest_rate * (now - last_update) > MAX_EXPONENT {
        Err(ErrorCode::ArithmeticError)
    } else if accrued_balance(
        deposited_amount as nat,
        interest_rate as nat,
        (now - last_update) as nat,
    ) > u64::MAX {
        Err(ErrorCode::ArithmeticError)
    } else if accrued_balance(
        deposited_amount as nat,
        interest_rate as nat,
        (now - last_update) as nat,
    ) * price.price > u64::MAX {
        Err(ErrorCode::ArithmeticError)
    } else {
        Ok(
            (accrued_balance(
                deposited_amount as nat,
                interest_rate as nat,
                (now - last_update) as nat,
            ) * price.price) as u64,
        )
    }
}

/// Value a deposit of `deposited_amount`, accrued at `interest_rate` since
/// `last_update`, through a fresh oracle price.
pub fn collateral_value(
    deposited_amount: u64,
    interest_rate: u64,
    last_update: u64,
    price: &PriceData,
    max_age: u64,
    now: u64,
) -> (r: Result<u64, ErrorCode>)
    ensures
        r == collateral_value_spec(deposited_amount, interest_rate, last_update, *price, max_age, now),
        !price_fresh(*price, now, max_age) ==> r == Err::<u64, ErrorCode>(ErrorCode::StalePrice),
{
    if max_age < now && price.publish_time < now - max_age {
        return Err(ErrorCode::StalePrice);
    }
    if now < last_update {
        return Err(ErrorCode::ArithmeticError);
    }
    let accrued = match accrue(deposited_amount, interest_rate, now - last_update) {
        Ok(v) => v,
        Err(e) => {
            return Err(e);
        },
    };
    match accrued.checked_mul(price.price) {
        Some(value) => Ok(value),
        None => Err(ErrorCode::ArithmeticError),
    }
}

/// The amount a participant may have outstanding against collateral worth
/// `value`: the value scaled by the pool's liquidation threshold.
pub fn borrowable_limit(value: u64, liquidation_threshold: u64) -> (r: Result<u64, ErrorCode>)
    ensures
        value * liquidation_threshold <= u64::MAX ==> r == Ok::<u64, ErrorCode>(
            (value * liquidation_threshold) as u64,
        ),
        value * liquidation_threshold > u64::MAX ==> r == Err::<u64, ErrorCode>(
            ErrorCode::ArithmeticError,
        ),
{
    match value.checked_mul(liquidation_threshold) {
        Some(limit) => Ok(limit),
        None => Err(ErrorCode::ArithmeticError),
    }
}

} // verus!
