use vstd::prelude::*;

verus! {

/// Failure kinds surfaced by the accounting core.
///
/// Every operation either commits fully or reports one of these without any
/// observable mutation.  All of them are local and synchronous; the caller
/// decides whether an operation is worth retrying (for example after
/// refreshing a price).
#[derive(Clone, Copy, Debug, PartialEq, Eq, Structural)]
pub enum ErrorCode {
    /// A withdrawal exceeds the participant's deposited balance, or a
    /// repayment was attempted while the pool's value per share is degenerate.
    InsufficientFunds,
    /// A borrow exceeds the collateral-derived borrowable limit.
    OverBorrowableAmount,
    /// A repayment exceeds the participant's owed value.
    OverReply,
    /// The supplied oracle price is older than the configured maximum age.
    StalePrice,
    /// Overflow, underflow, or an out-of-range interest exponent; arithmetic
    /// never silently saturates or wraps.
    ArithmeticError,
    /// A pool's total amount and total shares disagree about being zero.
    CorruptState,
}

} // verus!
