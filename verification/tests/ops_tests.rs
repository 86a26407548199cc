use lending::error::ErrorCode;
use lending::ops::{borrow, deposit, reply, withdraw};
use lending::state::{init_bank, init_user, AssetPosition, Bank, User};
use lending::valuation::PriceData;

const SOL: u64 = 1;
const USDC: u64 = 2;

fn bank_with(asset_id: u64, deposits: u64, deposit_shares: u64, rate: u64, now: u64) -> Bank {
    Bank {
        asset_id,
        total_deposits: deposits,
        total_deposit_shares: deposit_shares,
        total_borrowed: 0,
        total_borrowed_shares: 0,
        interest_rate: rate,
        liquidation_threshold: 1,
        max_ltv: 1,
        last_update: now,
    }
}

fn user_with(position_a: AssetPosition, position_b: AssetPosition, now: u64) -> User {
    User {
        owner_id: 77,
        collateral_asset: USDC,
        position_a,
        position_b,
        last_update: now,
    }
}

fn pos(asset_id: u64) -> AssetPosition {
    AssetPosition {
        asset_id,
        deposited_amount: 0,
        deposited_shares: 0,
        borrowed_amount: 0,
        borrowed_shares: 0,
    }
}

#[test]
fn deposit_into_seeded_pool_grows_both_ledgers() {
    let mut bank = bank_with(SOL, 1000, 1000, 0, 50);
    let mut user = user_with(pos(SOL), pos(USDC), 50);
    let r = deposit(&mut bank, &mut user, 100, 50);
    assert_eq!(r, Ok(()));
    assert_eq!(bank.total_deposits, 1100);
    assert_eq!(bank.total_deposit_shares, 1100);
    assert_eq!(user.position_a.deposited_amount, 100);
    assert_eq!(user.position_a.deposited_shares, 100);
    assert_eq!(user.position_b, pos(USDC));
}

#[test]
fn deposit_bootstraps_an_empty_pool_one_to_one() {
    let mut bank = bank_with(SOL, 0, 0, 0, 0);
    let mut user = user_with(pos(SOL), pos(USDC), 0);
    assert_eq!(deposit(&mut bank, &mut user, u64::MAX, 0), Ok(()));
    assert_eq!(bank.total_deposits, u64::MAX);
    assert_eq!(bank.total_deposit_shares, u64::MAX);
    assert_eq!(user.position_a.deposited_shares, u64::MAX);
}

#[test]
fn deposit_withdraw_round_trip_restores_both_ledgers() {
    // A pool whose value per share is not 1, so the conversions really round.
    let initial_bank = bank_with(SOL, 1000, 800, 0, 9);
    let initial_user = user_with(pos(SOL), pos(USDC), 9);
    let mut bank = initial_bank;
    let mut user = initial_user;
    assert_eq!(deposit(&mut bank, &mut user, 100, 9), Ok(()));
    assert_eq!(bank.total_deposit_shares, 880);
    assert_eq!(withdraw(&mut bank, &mut user, 100, 9), Ok(()));
    assert_eq!(bank, initial_bank);
    assert_eq!(user, initial_user);
}

#[test]
fn withdraw_beyond_deposited_balance_is_insufficient_funds() {
    let mut bank = bank_with(SOL, 1000, 1000, 0, 5);
    let mut user = user_with(
        AssetPosition {
            deposited_amount: 40,
            deposited_shares: 40,
            ..pos(SOL)
        },
        pos(USDC),
        5,
    );
    let before_bank = bank;
    let before_user = user;
    assert_eq!(withdraw(&mut bank, &mut user, 41, 5), Err(ErrorCode::InsufficientFunds));
    assert_eq!(bank, before_bank);
    assert_eq!(user, before_user);
    assert_eq!(withdraw(&mut bank, &mut user, 40, 5), Ok(()));
    assert_eq!(user.position_a.deposited_amount, 0);
}

#[test]
fn first_borrow_bootstraps_the_borrow_pool() {
    // Collateral: 100 deposited in the counterpart asset, price 2, threshold 3.
    let mut bank = Bank {
        liquidation_threshold: 3,
        ..bank_with(SOL, 0, 0, 0, 10)
    };
    let mut user = user_with(
        pos(SOL),
        AssetPosition {
            deposited_amount: 100,
            deposited_shares: 100,
            ..pos(USDC)
        },
        10,
    );
    let price = PriceData {
        price: 2,
        publish_time: 10,
    };
    assert_eq!(borrow(&mut bank, &mut user, 50, &price, 60, 10), Ok(()));
    assert_eq!(bank.total_borrowed, 50);
    assert_eq!(bank.total_borrowed_shares, 50);
    assert_eq!(user.position_a.borrowed_amount, 50);
    assert_eq!(user.position_a.borrowed_shares, 50);
}

#[test]
fn borrow_succeeds_at_the_limit_and_fails_one_past_it() {
    // Limit: 100 deposited * price 2 * threshold 3 = 600.
    let make = || {
        (
            Bank {
                liquidation_threshold: 3,
                ..bank_with(SOL, 0, 0, 0, 10)
            },
            user_with(
                pos(SOL),
                AssetPosition {
                    deposited_amount: 100,
                    deposited_shares: 100,
                    ..pos(USDC)
                },
                10,
            ),
        )
    };
    let price = PriceData {
        price: 2,
        publish_time: 10,
    };
    let (mut bank, mut user) = make();
    assert_eq!(borrow(&mut bank, &mut user, 600, &price, 60, 10), Ok(()));
    let (mut bank, mut user) = make();
    let before_bank = bank;
    let before_user = user;
    assert_eq!(
        borrow(&mut bank, &mut user, 601, &price, 60, 10),
        Err(ErrorCode::OverBorrowableAmount)
    );
    assert_eq!(bank, before_bank);
    assert_eq!(user, before_user);
}

#[test]
fn borrow_with_stale_price_fails_even_with_ample_collateral() {
    let mut bank = Bank {
        liquidation_threshold: 1000,
        ..bank_with(SOL, 0, 0, 0, 100)
    };
    let mut user = user_with(
        pos(SOL),
        AssetPosition {
            deposited_amount: 1_000_000,
            deposited_shares: 1_000_000,
            ..pos(USDC)
        },
        100,
    );
    // Published at 100, max age 50: stale from 151 onward.
    let price = PriceData {
        price: 10,
        publish_time: 100,
    };
    let before_bank = bank;
    let before_user = user;
    assert_eq!(
        borrow(&mut bank, &mut user, 1, &price, 50, 151),
        Err(ErrorCode::StalePrice)
    );
    assert_eq!(bank, before_bank);
    assert_eq!(user, before_user);
    // At exactly the maximum age the price is still accepted.
    assert_eq!(borrow(&mut bank, &mut user, 1, &price, 50, 150), Ok(()));
}

#[test]
fn borrow_of_the_bound_asset_is_backed_by_the_other_position() {
    // The participant's collateral binding is USDC; borrowing USDC itself
    // must be backed by the SOL position.
    let mut bank = Bank {
        liquidation_threshold: 1,
        ..bank_with(USDC, 0, 0, 0, 10)
    };
    let mut user = user_with(
        AssetPosition {
            deposited_amount: 30,
            deposited_shares: 30,
            ..pos(SOL)
        },
        pos(USDC),
        10,
    );
    let price = PriceData {
        price: 1,
        publish_time: 10,
    };
    // Limit is 30 * 1 * 1 = 30, from the SOL position.
    assert_eq!(
        borrow(&mut bank, &mut user, 31, &price, 60, 10),
        Err(ErrorCode::OverBorrowableAmount)
    );
    assert_eq!(borrow(&mut bank, &mut user, 30, &price, 60, 10), Ok(()));
    assert_eq!(user.position_b.borrowed_amount, 30);
}

#[test]
fn reply_up_to_owed_value_succeeds_and_beyond_it_fails() {
    // Deposit pool at value per share 1; 70 borrow shares are owed 70.
    let make = || {
        (
            Bank {
                total_borrowed: 70,
                total_borrowed_shares: 70,
                ..bank_with(SOL, 1000, 1000, 0, 20)
            },
            user_with(
                AssetPosition {
                    borrowed_amount: 70,
                    borrowed_shares: 70,
                    ..pos(SOL)
                },
                pos(USDC),
                20,
            ),
        )
    };
    let (mut bank, mut user) = make();
    let before_bank = bank;
    let before_user = user;
    assert_eq!(reply(&mut bank, &mut user, 71, 20), Err(ErrorCode::OverReply));
    assert_eq!(bank, before_bank);
    assert_eq!(user, before_user);
    assert_eq!(reply(&mut bank, &mut user, 70, 20), Ok(()));
    assert_eq!(bank.total_borrowed, 0);
    assert_eq!(bank.total_borrowed_shares, 0);
    assert_eq!(user.position_a.borrowed_amount, 0);
    assert_eq!(user.position_a.borrowed_shares, 0);
}

#[test]
fn reply_with_degenerate_value_per_share_is_insufficient_funds() {
    // Shares outstanding against nothing: value per share is not positive.
    let mut bank = Bank {
        total_deposit_shares: 5,
        ..bank_with(SOL, 0, 0, 0, 20)
    };
    let mut user = user_with(
        AssetPosition {
            borrowed_amount: 10,
            borrowed_shares: 10,
            ..pos(SOL)
        },
        pos(USDC),
        20,
    );
    assert_eq!(reply(&mut bank, &mut user, 1, 20), Err(ErrorCode::InsufficientFunds));
}

#[test]
fn clock_before_last_update_is_an_arithmetic_error() {
    let mut bank = bank_with(SOL, 1000, 1000, 7, 50);
    let mut user = user_with(pos(SOL), pos(USDC), 50);
    assert_eq!(deposit(&mut bank, &mut user, 1, 49), Err(ErrorCode::ArithmeticError));
    assert_eq!(withdraw(&mut bank, &mut user, 1, 49), Err(ErrorCode::ArithmeticError));
    assert_eq!(reply(&mut bank, &mut user, 1, 49), Err(ErrorCode::ArithmeticError));
}

#[test]
fn deposit_overflowing_the_pool_is_an_arithmetic_error() {
    let mut bank = bank_with(SOL, u64::MAX, u64::MAX, 0, 5);
    let mut user = user_with(pos(SOL), pos(USDC), 5);
    let before_bank = bank;
    assert_eq!(deposit(&mut bank, &mut user, 1, 5), Err(ErrorCode::ArithmeticError));
    assert_eq!(bank, before_bank);
}

#[test]
fn init_bank_and_init_user_start_empty() {
    let bank = init_bank(SOL, 12, 3, 2, 40);
    assert_eq!(bank.asset_id, SOL);
    assert_eq!(bank.total_deposits, 0);
    assert_eq!(bank.total_deposit_shares, 0);
    assert_eq!(bank.total_borrowed, 0);
    assert_eq!(bank.total_borrowed_shares, 0);
    assert_eq!(bank.interest_rate, 12);
    assert_eq!(bank.liquidation_threshold, 3);
    assert_eq!(bank.max_ltv, 2);
    assert_eq!(bank.last_update, 40);
    let user = init_user(9, SOL, USDC, USDC, 40);
    assert_eq!(user.owner_id, 9);
    assert_eq!(user.collateral_asset, USDC);
    assert_eq!(user.position_a.asset_id, SOL);
    assert_eq!(user.position_b.asset_id, USDC);
    assert_eq!(user.position_a.deposited_amount, 0);
    assert_eq!(user.position_b.borrowed_shares, 0);
    assert_eq!(user.last_update, 40);
}
