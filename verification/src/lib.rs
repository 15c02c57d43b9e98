//! Accounting core of a concentrated-liquidity automated market maker.
//!
//! The crate tracks, for each liquidity provider and each price range, how
//! much trading fee has accrued and how much of each asset is owed, using
//! only fixed-point integer arithmetic so that independent executions of the
//! same inputs produce bit-identical results.

pub mod address;
pub mod amount_delta;
pub mod decimals;
pub mod log;
pub mod errors;
pub mod fee_growth;
pub mod pool;
pub mod position;
pub mod tick;
pub mod u256;
