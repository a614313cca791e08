//! Protocol constants.

use vstd::prelude::*;

verus! {

/// Number of liquidity shares withheld for ever from the first depositor of a pool.
pub const MINIMUM_LIQUIDITY: u64 = 1000;

/// The bit pattern of the fixed-point number one: a number `x` is stored as
/// the integer `x * SCALE`.
pub const SCALE: i128 = 0x1_0000_0000_0000_0000;

/// The integers that have a fixed-point representation are those below this bound.
pub const INTEGER_LIMIT: u64 = 0x8000_0000_0000_0000;

} // verus!
