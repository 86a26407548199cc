//! Ledger records: the per-asset pool ledger and the per-participant ledger.

use vstd::prelude::*;

verus! {

/// Pool ledger for one supported asset.
///
/// Aggregate deposits and borrows are tracked both as amounts and as shares
/// outstanding; a well-formed pool never has one half of a pair zero while
/// the other is not, so its value per share is always a ratio of positive
/// numbers whenever any share exists.
#[derive(Clone, Copy, Debug, PartialEq, Eq, Structural)]
pub struct Bank {
    /// Identity of the underlying fungible asset.
    pub asset_id: u64,
    /// Aggregate deposited amount.
    pub total_deposits: u64,
    /// Deposit shares outstanding against `total_deposits`.
    pub total_deposit_shares: u64,
    /// Aggregate borrowed amount.
    pub total_borrowed: u64,
    /// Borrow shares outstanding against `total_borrowed`.
    pub total_borrowed_shares: u64,
    /// Fixed-point per-unit-time rate used for continuous compounding, scaled
    /// by [`crate::interest::SCALE`].
    pub interest_rate: u64,
    /// Fraction of collateral value that may be borrowed before liquidation
    /// risk; multiplies the collateral value to give the borrowable limit.
    pub liquidation_threshold: u64,
    /// Maximum loan-to-value permitted at borrow time; recorded risk
    /// parameter.
    pub max_ltv: u64,
    /// Timestamp of the last accrual applied to this pool.
    pub last_update: u64,
}

impl Bank {
    /// Well-formedness: each amount/share pair agrees about being zero.
    pub open spec fn wf(self) -> bool {
        &&& (self.total_deposit_shares == 0 <==> self.total_deposits == 0)
        &&& (self.total_borrowed_shares == 0 <==> self.total_borrowed == 0)
    }
}

/// A participant's holdings in one asset.
#[derive(Clone, Copy, Debug, PartialEq, Eq, Structural)]
pub struct AssetPosition {
    /// Which asset this position is in.
    pub asset_id: u64,
    /// Amount deposited, at face value of the deposits and withdrawals made.
    pub deposited_amount: u64,
    /// Deposit shares held against the pool of this asset.
    pub deposited_shares: u64,
    /// Amount borrowed.
    pub borrowed_amount: u64,
    /// Borrow shares held against the pool of this asset.
    pub borrowed_shares: u64,
}

impl AssetPosition {
    /// An empty position in `asset_id`.
    pub open spec fn empty_spec(asset_id: u64) -> AssetPosition {
        AssetPosition {
            asset_id,
            deposited_amount: 0,
            deposited_shares: 0,
            borrowed_amount: 0,
            borrowed_shares: 0,
        }
    }
}

/// Participant ledger: positions in the two supported assets of a lending
/// pair, plus the designated collateral binding.
#[derive(Clone, Copy, Debug, PartialEq, Eq, Structural)]
pub struct User {
    /// Identity of the participant.
    pub owner_id: u64,
    /// The asset this participant uses as collateral/borrow counterpart,
    /// fixed at provisioning.  Borrowing the bound asset itself is backed by
    /// the other position.
    pub collateral_asset: u64,
    /// Position in the first asset of the pair.
    pub position_a: AssetPosition,
    /// Position in the second asset of the pair.
    pub position_b: AssetPosition,
    /// Timestamp of the last accrual applied to this participant's position.
    pub last_update: u64,
}

impl User {
    /// Well-formedness: the two positions are in distinct assets and the
    /// collateral binding names one of them.
    pub open spec fn wf(self) -> bool {
        &&& self.position_a.asset_id != self.position_b.asset_id
        &&& (self.collateral_asset == self.position_a.asset_id || self.collateral_asset
            == self.position_b.asset_id)
    }

    /// Whether the participant holds a position in `asset`.
    pub open spec fn has_position(self, asset: u64) -> bool {
        self.position_a.asset_id == asset || self.position_b.asset_id == asset
    }

    /// The participant's position in `asset`.
    pub open spec fn position_for(self, asset: u64) -> AssetPosition {
        if self.position_a.asset_id == asset {
            self.position_a
        } else {
            self.position_b
        }
    }

    /// The position backing a borrow of `asset`: the bound collateral asset,
    /// or the other position when `asset` is the bound one itself.
    pub open spec fn collateral_position_for(self, asset: u64) -> AssetPosition {
        if self.collateral_asset == asset {
            if self.position_a.asset_id == asset {
                self.position_b
            } else {
                self.position_a
            }
        } else {
            self.position_for(self.collateral_asset)
        }
    }

    /// The participant ledger with its position in `asset` replaced.
    pub open spec fn with_position(self, asset: u64, position: AssetPosition) -> User {
        if self.position_a.asset_id == asset {
            User { position_a: position, ..self }
        } else {
            User { position_b: position, ..self }
        }
    }
}

/// The participant-side invariant against one pool: a participant's shares
/// in the pool's asset never exceed the pool's total shares outstanding.
/// Every operation preserves it, since both ledgers grow and shrink by the
/// same share count.
pub open spec fn shares_covered(bank: Bank, user: User) -> bool {
    &&& user.position_for(bank.asset_id).deposited_shares <= bank.total_deposit_shares
    &&& user.position_for(bank.asset_id).borrowed_shares <= bank.total_borrowed_shares
}

/// Value per share is always finite and positive while any deposit share is
/// outstanding: in a well-formed pool the divisor `total_deposit_shares` is
/// nonzero by assumption and the numerator `total_deposits` is then nonzero
/// too, so the ratio `total_deposits / total_deposit_shares` is a quotient
/// of two positive finite integers.
pub proof fn lemma_value_per_share_positive(bank: Bank)
    requires
        bank.wf(),
        bank.total_deposit_shares > 0,
    ensures
        bank.total_deposits > 0,
{
}

/// Create the pool ledger for a newly registered asset: empty pools, the
/// given risk parameters, and `now` as the first accrual timestamp.
pub fn init_bank(
    asset_id: u64,
    interest_rate: u64,
    liquidation_threshold: u64,
    max_ltv: u64,
    now: u64,
) -> (bank: Bank)
    ensures
        bank == (Bank {
            asset_id,
            total_deposits: 0,
            total_deposit_shares: 0,
            total_borrowed: 0,
            total_borrowed_shares: 0,
            interest_rate,
            liquidation_threshold,
            max_ltv,
            last_update: now,
        }),
        bank.wf(),
{
    Bank {
        asset_id,
        total_deposits: 0,
        total_deposit_shares: 0,
        total_borrowed: 0,
        total_borrowed_shares: 0,
        interest_rate,
        liquidation_threshold,
        max_ltv,
        last_update: now,
    }
}

/// Create the ledger for a newly provisioned participant: empty positions in
/// the two assets of the pair, with `collateral_asset` as the designated
/// collateral binding.
pub fn init_user(owner_id: u64, asset_a: u64, asset_b: u64, collateral_asset: u64, now: u64) -> (user:
    User)
    requires
        asset_a != asset_b,
        collateral_asset == asset_a || collateral_asset == asset_b,
    ensures
        user == (User {
            owner_id,
            collateral_asset,
            position_a: AssetPosition::empty_spec(asset_a),
            position_b: AssetPosition::empty_spec(asset_b),
            last_update: now,
        }),
        user.wf(),
{
    User {
        owner_id,
        collateral_asset,
        position_a: AssetPosition {
            asset_id: asset_a,
            deposited_amount: 0,
            deposited_shares: 0,
            borrowed_amount: 0,
            borrowed_shares: 0,
        },
        position_b: AssetPosition {
            asset_id: asset_b,
            deposited_amount: 0,
            deposited_shares: 0,
            borrowed_amount: 0,
            borrowed_shares: 0,
        },
        last_update: now,
    }
}

} // verus!
