//! The ways in which an operation on a pool is rejected.

use vstd::prelude::*;

verus! {

/// Why an operation was rejected. A rejected operation leaves the pool unchanged.
#[derive(Clone, Copy, Debug, PartialEq, Eq, Structural)]
pub enum PlutoError {
    /// The first deposit into a pool is worth fewer shares than the minimum-liquidity lock.
    DepositTooSmall,
    /// More shares were offered for redemption than the caller owns.
    InvalidWithdrawalAmount,
    /// A swap would pay out nothing, or would drain the output side of the pool.
    InsufficientLiquidity,
    /// A quantity does not fit the fixed-point or integer type that has to hold it.
    ArithmeticOverflow,
    /// A fixed-point division by zero.
    DivisionByZero,
    /// A ledger update would make a reserve or the share supply negative.
    Underflow,
    /// A pool was asked for over two identical assets.
    DuplicateAssetPair,
}

} // verus!
