//! Accounting and pricing engine for two-asset constant-product liquidity pools.
//!
//! A pool holds reserves of two assets and a supply of liquidity shares. The
//! engine computes, in 64.64 fixed-point arithmetic, how much of each asset a
//! deposit consumes and how many shares it mints, how much a redemption of
//! shares returns, and what a swap pays out. Every operation either updates
//! the pool as a whole or fails and leaves it as it was.
//!
//! The engine moves no assets and keeps no accounts. Its caller reads a
//! pool's numbers into a [`PoolState`], asks for an operation, and carries
//! out the transfers that the answer calls for.

pub mod constants;
pub mod deposit_liquidity;
pub mod errors;
pub mod fixed_point;
pub mod laws;
pub mod math;
pub mod state;
pub mod swap_token;
pub mod withdraw_liquidity;

pub use crate::constants::MINIMUM_LIQUIDITY;
pub use crate::deposit_liquidity::deposit_liquidity;
pub use crate::errors::PlutoError;
pub use crate::fixed_point::Fixed;
pub use crate::state::create_pool;
pub use crate::state::AssetId;
pub use crate::state::PoolState;
pub use crate::swap_token::swap_tokens;
pub use crate::withdraw_liquidity::withdraw_liquidity;
