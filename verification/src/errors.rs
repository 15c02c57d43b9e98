use vstd::prelude::*;

verus! {

/// The failures the core can report. Each one aborts only the requested
/// operation; committed state is never left half-changed.
#[derive(Clone, Copy, Debug, PartialEq, Eq, Structural)]
pub enum ErrorCode {
    /// The oracle link of a pool was asked to initialize a second time.
    OracleAlreadyInitialized,
    /// A settlement was requested for a position holding no liquidity with a
    /// zero liquidity delta: there is nothing to account for.
    EmptyPositionPokes,
    /// A liquidity decrease larger than the position's current liquidity.
    InvalidPositionLiquidity,
    /// An arithmetic result does not fit the destination width.
    Overflow,
    /// An arithmetic result would be negative.
    Underflow,
}

} // verus!
