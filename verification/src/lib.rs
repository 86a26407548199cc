//! Accounting core of a collateralized lending pool.
//!
//! The library tracks per-asset pool totals and per-participant positions in a
//! share representation, accrues interest with a deterministic fixed-point
//! exponential, values collateral against an externally supplied price, and
//! enforces the borrow and repay limits.  Everything here is pure state
//! arithmetic: the surrounding host is expected to fetch prices, move tokens
//! and persist the ledgers, handing this crate plain values only.

pub mod error;
pub mod interest;
pub mod ops;
pub mod shares;
pub mod state;
pub mod valuation;
