//! The four operation state transitions: deposit, withdraw, borrow, reply.
//!
//! Each operation is transactional: it either commits every ledger change it
//! describes or reports an error with both ledgers untouched.  The meaning
//! of every transition is given by a specification function over the ledger
//! records and plain inputs (amount, clock reading, oracle price); the
//! executable operations are proved to return exactly that transition.

use vstd::prelude::*;

use crate::error::ErrorCode;
use crate::interest::{
    accrue, accrued_balance, lemma_accrual_at_least_balance, lemma_accrual_monotonic,
    MAX_EXPONENT,
};
use crate::shares::{
    amount_to_shares, lemma_pro_rata_bounds, lemma_pro_rata_inverse, pro_rata, shares_to_amount,
};
use crate::state::{shares_covered, AssetPosition, Bank, User};
use crate::valuation::{
    borrowable_limit, collateral_value, collateral_value_spec, price_fresh, PriceData,
};

verus! {

/// The pool's aggregate deposits accrued from its last update to `now`.
///
/// A clock reading earlier than the pool's last update is a fatal
/// state-consistency failure and is rejected, never applied with an inverted
/// sign; so is an exponent beyond the accepted range or an accrued total
/// that no longer fits in 64 bits.
pub open spec fn accrued_deposits(bank: Bank, now: u64) -> Result<u64, ErrorCode> {
    if now < bank.last_update {
        Err(ErrorCode::ArithmeticError)
    } else if bank.interest_rate * (now - bank.last_update) > MAX_EXPONENT {
        Err(ErrorCode::ArithmeticError)
    } else if accrued_balance(
        bank.total_deposits as nat,
        bank.interest_rate as nat,
        (now - bank.last_update) as nat,
    ) > u64::MAX {
        Err(ErrorCode::ArithmeticError)
    } else {
        Ok(
            accrued_balance(
                bank.total_deposits as nat,
                bank.interest_rate as nat,
                (now - bank.last_update) as nat,
            ) as u64,
        )
    }
}

/// The deposit transition: accrue the pool, convert the amount to deposit
/// shares against the accrued pool, then grow the pool and the participant's
/// position by the amount and the shares.
pub open spec fn deposit_spec(bank: Bank, user: User, amount: u64, now: u64) -> Result<
    (Bank, User),
    ErrorCode,
> {
    let pos = user.position_for(bank.asset_id);
    match accrued_deposits(bank, now) {
        Err(e) => Err(e),
        Ok(td) => match pro_rata(amount, td, bank.total_deposit_shares) {
            Err(e) => Err(e),
            Ok(shares) => if td + amount > u64::MAX || bank.total_deposit_shares + shares
                > u64::MAX || pos.deposited_amount + amount > u64::MAX || pos.deposited_shares
                + shares > u64::MAX {
                Err(ErrorCode::ArithmeticError)
            } else {
                Ok(
                    (
                        Bank {
                            total_deposits: (td + amount) as u64,
                            total_deposit_shares: (bank.total_deposit_shares + shares) as u64,
                            last_update: now,
                            ..bank
                        },
                        user.with_position(
                            bank.asset_id,
                            AssetPosition {
                                deposited_amount: (pos.deposited_amount + amount) as u64,
                                deposited_shares: (pos.deposited_shares + shares) as u64,
                                ..pos
                            },
                        ),
                    ),
                )
            },
        },
    }
}

/// Deposit `amount` of the pool's asset for `user` at time `now`.
///
/// On success the pool and the participant's position in the pool's asset
/// grow by the amount and by its share conversion; on any failure neither
/// ledger is touched.  A well-formed pool stays well-formed.
pub fn deposit(bank: &mut Bank, user: &mut User, amount: u64, now: u64) -> (r: Result<
    (),
    ErrorCode,
>)
    requires
        old(user).has_position(old(bank).asset_id),
    ensures
        (match deposit_spec(*old(bank), *old(user), amount, now) {
            Ok(next) => r == Ok::<(), ErrorCode>(()) && *final(bank) == next.0 && *final(user)
                == next.1,
            Err(e) => r == Err::<(), ErrorCode>(e) && *final(bank) == *old(bank) && *final(user)
                == *old(user),
        }),
        r is Ok && old(bank).wf() ==> final(bank).wf(),
        r is Ok && shares_covered(*old(bank), *old(user)) ==> shares_covered(
            *final(bank),
            *final(user),
        ),
        r is Err ==> *final(bank) == *old(bank) && *final(user) == *old(user),
{
    if now < bank.last_update {
        return Err(ErrorCode::ArithmeticError);
    }
    let td = match accrue(bank.total_deposits, bank.interest_rate, now - bank.last_update) {
        Ok(v) => v,
        Err(e) => {
            return Err(e);
        },
    };
    let shares = match amount_to_shares(amount, td, bank.total_deposit_shares) {
        Ok(v) => v,
        Err(e) => {
            return Err(e);
        },
    };
    if amount > u64::MAX - td || shares > u64::MAX - bank.total_deposit_shares {
        return Err(ErrorCode::ArithmeticError);
    }
    let on_a = user.position_a.asset_id == bank.asset_id;
    let pos = if on_a {
        user.position_a
    } else {
        user.position_b
    };
    if amount > u64::MAX - pos.deposited_amount || shares > u64::MAX - pos.deposited_shares {
        return Err(ErrorCode::ArithmeticError);
    }
    proof {
        lemma_accrual_at_least_balance(
            old(bank).total_deposits as nat,
            old(bank).interest_rate as nat,
            (now - old(bank).last_update) as nat,
        );
    }
    bank.total_deposits = td + amount;
    bank.total_deposit_shares = bank.total_deposit_shares + shares;
    bank.last_update = now;
    let grown = AssetPosition {
        deposited_amount: pos.deposited_amount + amount,
        deposited_shares: pos.deposited_shares + shares,
        ..pos
    };
    if on_a {
        user.position_a = grown;
    } else {
        user.position_b = grown;
    }
    Ok(())
}

/// The withdraw transition: accrue the pool, check the participant's
/// deposited balance covers the amount, convert the amount to shares against
/// the accrued pool, then shrink the pool and the position by both.
pub open spec fn withdraw_spec(bank: Bank, user: User, amount: u64, now: u64) -> Result<
    (Bank, User),
    ErrorCode,
> {
    let pos = user.position_for(bank.asset_id);
    match accrued_deposits(bank, now) {
        Err(e) => Err(e),
        Ok(td) => if amount > pos.deposited_amount {
            Err(ErrorCode::InsufficientFunds)
        } else {
            match pro_rata(amount, td, bank.total_deposit_shares) {
                Err(e) => Err(e),
                Ok(shares) => if amount > td || shares > bank.total_deposit_shares || shares
                    > pos.deposited_shares {
                    Err(ErrorCode::ArithmeticError)
                } else {
                    Ok(
                        (
                            Bank {
                                total_deposits: (td - amount) as u64,
                                total_deposit_shares: (bank.total_deposit_shares - shares) as u64,
                                last_update: now,
                                ..bank
                            },
                            user.with_position(
                                bank.asset_id,
                                AssetPosition {
                                    deposited_amount: (pos.deposited_amount - amount) as u64,
                                    deposited_shares: (pos.deposited_shares - shares) as u64,
                                    ..pos
                                },
                            ),
                        ),
                    )
                },
            }
        },
    }
}

/// Withdraw `amount` of the pool's asset for `user` at time `now`.
///
/// Fails with `InsufficientFunds` when the amount exceeds the participant's
/// deposited balance; on any failure neither ledger is touched.  A
/// well-formed pool stays well-formed.
pub fn withdraw(bank: &mut Bank, user: &mut User, amount: u64, now: u64) -> (r: Result<
    (),
    ErrorCode,
>)
    requires
        old(user).has_position(old(bank).asset_id),
    ensures
        (match withdraw_spec(*old(bank), *old(user), amount, now) {
            Ok(next) => r == Ok::<(), ErrorCode>(()) && *final(bank) == next.0 && *final(user)
                == next.1,
            Err(e) => r == Err::<(), ErrorCode>(e) && *final(bank) == *old(bank) && *final(user)
                == *old(user),
        }),
        r is Ok && old(bank).wf() ==> final(bank).wf(),
        r is Ok && shares_covered(*old(bank), *old(user)) ==> shares_covered(
            *final(bank),
            *final(user),
        ),
        r is Err ==> *final(bank) == *old(bank) && *final(user) == *old(user),
{
    if now < bank.last_update {
        return Err(ErrorCode::ArithmeticError);
    }
    let td = match accrue(bank.total_deposits, bank.interest_rate, now - bank.last_update) {
        Ok(v) => v,
        Err(e) => {
            return Err(e);
        },
    };
    let on_a = user.position_a.asset_id == bank.asset_id;
    let pos = if on_a {
        user.position_a
    } else {
        user.position_b
    };
    if amount > pos.deposited_amount {
        return Err(ErrorCode::InsufficientFunds);
    }
    let shares = match amount_to_shares(amount, td, bank.total_deposit_shares) {
        Ok(v) => v,
        Err(e) => {
            return Err(e);
        },
    };
    if amount > td || shares > bank.total_deposit_shares || shares > pos.deposited_shares {
        return Err(ErrorCode::ArithmeticError);
    }
    proof {
        lemma_accrual_at_least_balance(
            old(bank).total_deposits as nat,
            old(bank).interest_rate as nat,
            (now - old(bank).last_update) as nat,
        );
        if old(bank).wf() && td > 0 && bank.total_deposit_shares > 0 {
            lemma_pro_rata_bounds(amount, td, bank.total_deposit_shares);
        }
    }
    bank.total_deposits = td - amount;
    bank.total_deposit_shares = bank.total_deposit_shares - shares;
    bank.last_update = now;
    let shrunk = AssetPosition {
        deposited_amount: pos.deposited_amount - amount,
        deposited_shares: pos.deposited_shares - shares,
        ..pos
    };
    if on_a {
        user.position_a = shrunk;
    } else {
        user.position_b = shrunk;
    }
    Ok(())
}

/// The borrowable limit for a borrow of the pool's asset: the participant's
/// counterpart collateral position, accrued since the participant's last
/// update and valued through the oracle price, scaled by the pool's
/// liquidation threshold.
pub open spec fn borrow_limit_spec(
    bank: Bank,
    user: User,
    price: PriceData,
    max_age: u64,
    now: u64,
) -> Result<u64, ErrorCode> {
    let collateral = user.collateral_position_for(bank.asset_id);
    match collateral_value_spec(
        collateral.deposited_amount,
        bank.interest_rate,
        user.last_update,
        price,
        max_age,
        now,
    ) {
        Err(e) => Err(e),
        Ok(value) => if value * bank.liquidation_threshold > u64::MAX {
            Err(ErrorCode::ArithmeticError)
        } else {
            Ok((value * bank.liquidation_threshold) as u64)
        },
    }
}

/// The borrow transition: value the collateral through a fresh price, fail
/// with `OverBorrowableAmount` beyond the limit, convert the amount to
/// borrow shares against the borrow pool (one-to-one on the pool's first
/// borrow), then grow the pool's borrow side and the participant's position.
pub open spec fn borrow_spec(
    bank: Bank,
    user: User,
    amount: u64,
    price: PriceData,
    max_age: u64,
    now: u64,
) -> Result<(Bank, User), ErrorCode> {
    let pos = user.position_for(bank.asset_id);
    match borrow_limit_spec(bank, user, price, max_age, now) {
        Err(e) => Err(e),
        Ok(limit) => if amount > limit {
            Err(ErrorCode::OverBorrowableAmount)
        } else {
            match pro_rata(amount, bank.total_borrowed, bank.total_borrowed_shares) {
                Err(e) => Err(e),
                Ok(shares) => if bank.total_borrowed + amount > u64::MAX
                    || bank.total_borrowed_shares + shares > u64::MAX || pos.borrowed_amount
                    + amount > u64::MAX || pos.borrowed_shares + shares > u64::MAX {
                    Err(ErrorCode::ArithmeticError)
                } else {
                    Ok(
                        (
                            Bank {
                                total_borrowed: (bank.total_borrowed + amount) as u64,
                                total_borrowed_shares: (bank.total_borrowed_shares
                                    + shares) as u64,
                                ..bank
                            },
                            user.with_position(
                                bank.asset_id,
                                AssetPosition {
                                    borrowed_amount: (pos.borrowed_amount + amount) as u64,
                                    borrowed_shares: (pos.borrowed_shares + shares) as u64,
                                    ..pos
                                },
                            ),
                        ),
                    )
                },
            }
        },
    }
}

/// Borrow `amount` of the pool's asset for `user` at time `now`, against the
/// supplied oracle observation of the collateral asset's price.
///
/// A price older than `max_age` fails with `StalePrice` before anything else
/// is considered; an amount beyond the collateral-derived limit fails with
/// `OverBorrowableAmount`.  On any failure neither ledger is touched.  A
/// well-formed pool stays well-formed.
pub fn borrow(
    bank: &mut Bank,
    user: &mut User,
    amount: u64,
    price: &PriceData,
    max_age: u64,
    now: u64,
) -> (r: Result<(), ErrorCode>)
    requires
        old(user).has_position(old(bank).asset_id),
    ensures
        (match borrow_spec(*old(bank), *old(user), amount, *price, max_age, now) {
            Ok(next) => r == Ok::<(), ErrorCode>(()) && *final(bank) == next.0 && *final(user)
                == next.1,
            Err(e) => r == Err::<(), ErrorCode>(e) && *final(bank) == *old(bank) && *final(user)
                == *old(user),
        }),
        !price_fresh(*price, now, max_age) ==> r == Err::<(), ErrorCode>(ErrorCode::StalePrice),
        r is Ok && old(bank).wf() ==> final(bank).wf(),
        r is Ok && shares_covered(*old(bank), *old(user)) ==> shares_covered(
            *final(bank),
            *final(user),
        ),
        r is Err ==> *final(bank) == *old(bank) && *final(user) == *old(user),
{
    let collateral = if user.collateral_asset == bank.asset_id {
        if user.position_a.asset_id == bank.asset_id {
            user.position_b
        } else {
            user.position_a
        }
    } else {
        if user.position_a.asset_id == user.collateral_asset {
            user.position_a
        } else {
            user.position_b
        }
    };
    let value = match collateral_value(
        collateral.deposited_amount,
        bank.interest_rate,
        user.last_update,
        price,
        max_age,
        now,
    ) {
        Ok(v) => v,
        Err(e) => {
            return Err(e);
        },
    };
    let limit = match borrowable_limit(value, bank.liquidation_threshold) {
        Ok(l) => l,
        Err(e) => {
            return Err(e);
        },
    };
    if amount > limit {
        return Err(ErrorCode::OverBorrowableAmount);
    }
    let shares = match amount_to_shares(amount, bank.total_borrowed, bank.total_borrowed_shares) {
        Ok(v) => v,
        Err(e) => {
            return Err(e);
        },
    };
    if amount > u64::MAX - bank.total_borrowed || shares > u64::MAX - bank.total_borrowed_shares {
        return Err(ErrorCode::ArithmeticError);
    }
    let on_a = user.position_a.asset_id == bank.asset_id;
    let pos = if on_a {
        user.position_a
    } else {
        user.position_b
    };
    if amount > u64::MAX - pos.borrowed_amount || shares > u64::MAX - pos.borrowed_shares {
        return Err(ErrorCode::ArithmeticError);
    }
    bank.total_borrowed = bank.total_borrowed + amount;
    bank.total_borrowed_shares = bank.total_borrowed_shares + shares;
    let grown = AssetPosition {
        borrowed_amount: pos.borrowed_amount + amount,
        borrowed_shares: pos.borrowed_shares + shares,
        ..pos
    };
    if on_a {
        user.position_a = grown;
    } else {
        user.position_b = grown;
    }
    Ok(())
}

/// The participant's current owed value for the pool's asset: their borrow
/// shares valued at the pool's value per share, after accruing the pool's
/// deposit side to `now`.
///
/// Value per share is the accrued total deposits over the deposit shares
/// outstanding, taken as one when no shares exist; a pool whose shares are
/// outstanding against nothing has a degenerate value per share, and the
/// valuation fails with `InsufficientFunds` rather than propagate it.
pub open spec fn owed_value_spec(bank: Bank, user: User, now: u64) -> Result<u64, ErrorCode> {
    let pos = user.position_for(bank.asset_id);
    match accrued_deposits(bank, now) {
        Err(e) => Err(e),
        Ok(td) => if bank.total_deposit_shares > 0 && td == 0 {
            Err(ErrorCode::InsufficientFunds)
        } else {
            pro_rata(pos.borrowed_shares, bank.total_deposit_shares, td)
        },
    }
}

/// The reply (repayment) transition: accrue the pool's deposit side, value
/// the participant's borrow shares at the pool's value per share, fail with
/// `OverReply` beyond that owed value, convert the amount to borrow shares,
/// then shrink the pool's borrow side and the participant's position.
pub open spec fn reply_spec(bank: Bank, user: User, amount: u64, now: u64) -> Result<
    (Bank, User),
    ErrorCode,
> {
    let pos = user.position_for(bank.asset_id);
    match accrued_deposits(bank, now) {
        Err(e) => Err(e),
        Ok(td) => match owed_value_spec(bank, user, now) {
            Err(e) => Err(e),
            Ok(owed) => if amount > owed {
                Err(ErrorCode::OverReply)
            } else {
                match pro_rata(amount, bank.total_borrowed, bank.total_borrowed_shares) {
                    Err(e) => Err(e),
                    Ok(shares) => if amount > bank.total_borrowed || shares
                        > bank.total_borrowed_shares || amount > pos.borrowed_amount || shares
                        > pos.borrowed_shares {
                        Err(ErrorCode::ArithmeticError)
                    } else {
                        Ok(
                            (
                                Bank {
                                    total_deposits: td,
                                    total_borrowed: (bank.total_borrowed - amount) as u64,
                                    total_borrowed_shares: (bank.total_borrowed_shares
                                        - shares) as u64,
                                    last_update: now,
                                    ..bank
                                },
                                user.with_position(
                                    bank.asset_id,
                                    AssetPosition {
                                        borrowed_amount: (pos.borrowed_amount - amount) as u64,
                                        borrowed_shares: (pos.borrowed_shares - shares) as u64,
                                        ..pos
                                    },
                                ),
                            ),
                        )
                    },
                }
            },
        },
    }
}

/// Repay `amount` of the pool's asset for `user` at time `now`.
///
/// Fails with `OverReply` when the amount exceeds the participant's owed
/// value, and with `InsufficientFunds` when the pool's value per share is
/// degenerate.  On any failure neither ledger is touched.  A well-formed
/// pool stays well-formed.
pub fn reply(bank: &mut Bank, user: &mut User, amount: u64, now: u64) -> (r: Result<
    (),
    ErrorCode,
>)
    requires
        old(user).has_position(old(bank).asset_id),
    ensures
        (match reply_spec(*old(bank), *old(user), amount, now) {
            Ok(next) => r == Ok::<(), ErrorCode>(()) && *final(bank) == next.0 && *final(user)
                == next.1,
            Err(e) => r == Err::<(), ErrorCode>(e) && *final(bank) == *old(bank) && *final(user)
                == *old(user),
        }),
        r is Ok && old(bank).wf() ==> final(bank).wf(),
        r is Ok && shares_covered(*old(bank), *old(user)) ==> shares_covered(
            *final(bank),
            *final(user),
        ),
        r is Err ==> *final(bank) == *old(bank) && *final(user) == *old(user),
{
    if now < bank.last_update {
        return Err(ErrorCode::ArithmeticError);
    }
    let td = match accrue(bank.total_deposits, bank.interest_rate, now - bank.last_update) {
        Ok(v) => v,
        Err(e) => {
            return Err(e);
        },
    };
    if bank.total_deposit_shares > 0 && td == 0 {
        return Err(ErrorCode::InsufficientFunds);
    }
    let on_a = user.position_a.asset_id == bank.asset_id;
    let pos = if on_a {
        user.position_a
    } else {
        user.position_b
    };
    let owed = match shares_to_amount(pos.borrowed_shares, td, bank.total_deposit_shares) {
        Ok(v) => v,
        Err(e) => {
            return Err(e);
        },
    };
    if amount > owed {
        return Err(ErrorCode::OverReply);
    }
    let shares = match amount_to_shares(amount, bank.total_borrowed, bank.total_borrowed_shares) {
        Ok(v) => v,
        Err(e) => {
            return Err(e);
        },
    };
    if amount > bank.total_borrowed || shares > bank.total_borrowed_shares || amount
        > pos.borrowed_amount || shares > pos.borrowed_shares {
        return Err(ErrorCode::ArithmeticError);
    }
    proof {
        lemma_accrual_at_least_balance(
            old(bank).total_deposits as nat,
            old(bank).interest_rate as nat,
            (now - old(bank).last_update) as nat,
        );
        if old(bank).wf() && bank.total_borrowed > 0 && bank.total_borrowed_shares > 0 {
            lemma_pro_rata_bounds(amount, bank.total_borrowed, bank.total_borrowed_shares);
        }
    }
    bank.total_deposits = td;
    bank.total_borrowed = bank.total_borrowed - amount;
    bank.total_borrowed_shares = bank.total_borrowed_shares - shares;
    bank.last_update = now;
    let shrunk = AssetPosition {
        borrowed_amount: pos.borrowed_amount - amount,
        borrowed_shares: pos.borrowed_shares - shares,
        ..pos
    };
    if on_a {
        user.position_a = shrunk;
    } else {
        user.position_b = shrunk;
    }
    Ok(())
}

/// A borrow succeeds only within the borrowable limit, and exceeding the
/// limit is reported as `OverBorrowableAmount` exactly: whenever the limit
/// itself is computable, a borrow fails with `OverBorrowableAmount` if and
/// only if the amount exceeds the limit, and any borrow that succeeds was
/// within it.
pub proof fn lemma_borrow_limit_enforced(
    bank: Bank,
    user: User,
    amount: u64,
    price: PriceData,
    max_age: u64,
    now: u64,
)
    requires
        borrow_limit_spec(bank, user, price, max_age, now) is Ok,
    ensures
        (borrow_spec(bank, user, amount, price, max_age, now) == Err::<(Bank, User), ErrorCode>(
            ErrorCode::OverBorrowableAmount,
        )) <==> amount > borrow_limit_spec(bank, user, price, max_age, now)->Ok_0,
        borrow_spec(bank, user, amount, price, max_age, now) is Ok ==> amount <= borrow_limit_spec(
            bank,
            user,
            price,
            max_age,
            now,
        )->Ok_0,
{
}

/// A repayment succeeds only up to the owed value, and repaying more is
/// reported as `OverReply` exactly: whenever the owed value is computable, a
/// repayment fails with `OverReply` if and only if the amount exceeds it,
/// and any repayment that succeeds was within it.
pub proof fn lemma_reply_owed_enforced(bank: Bank, user: User, amount: u64, now: u64)
    requires
        owed_value_spec(bank, user, now) is Ok,
    ensures
        (reply_spec(bank, user, amount, now) == Err::<(Bank, User), ErrorCode>(
            ErrorCode::OverReply,
        )) <==> amount > owed_value_spec(bank, user, now)->Ok_0,
        reply_spec(bank, user, amount, now) is Ok ==> amount <= owed_value_spec(
            bank,
            user,
            now,
        )->Ok_0,
{
}

/// A deposit followed by an immediate withdrawal of the same amount, with no
/// time elapsed, returns both ledgers to their pre-deposit state exactly:
/// the shares minted by the deposit convert back with no rounding drift at
/// all.
pub proof fn lemma_deposit_withdraw_round_trip(bank: Bank, user: User, amount: u64, now: u64)
    requires
        bank.wf(),
        user.has_position(bank.asset_id),
        now == bank.last_update,
        deposit_spec(bank, user, amount, now) is Ok,
    ensures
        ({
            let next = deposit_spec(bank, user, amount, now)->Ok_0;
            withdraw_spec(next.0, next.1, amount, now) == Ok::<(Bank, User), ErrorCode>(
                (bank, user),
            )
        }),
{
    lemma_accrual_monotonic(bank.total_deposits as nat, bank.interest_rate as nat, 0, 0);
    let t = bank.total_deposits;
    let s = bank.total_deposit_shares;
    let next = deposit_spec(bank, user, amount, now)->Ok_0;
    let bank2 = next.0;
    let user2 = next.1;
    lemma_accrual_monotonic(bank2.total_deposits as nat, bank2.interest_rate as nat, 0, 0);
    if t == 0 && s == 0 {
        if amount == 0 {
            assert(bank2 == bank);
            assert(user2.with_position(
                bank.asset_id,
                user2.position_for(bank.asset_id),
            ) == user);
        } else {
            assert(bank2.total_deposits == amount && bank2.total_deposit_shares == amount);
            lemma_pro_rata_bounds(amount, amount, amount);
        }
    } else {
        let s1 = pro_rata(amount, t, s)->Ok_0;
        assert(s1 == amount * s / (t as int));
        lemma_pro_rata_inverse(amount as int, t as int, s as int);
        assert(amount * (s + s1) / (t + amount) == s1);
        assert(bank2.total_deposits == t + amount && bank2.total_deposit_shares == s + s1);
        assert(pro_rata(amount, bank2.total_deposits, bank2.total_deposit_shares)
            == Ok::<u64, ErrorCode>(s1));
    }
}

} // verus!
