//! Monetary constants: amounts are counted in the base unit, of which a coin
//! has a hundred million.

pub mod conversions;
pub mod educational;

use vstd::prelude::*;

verus! {

/// Number of base units in one coin.
pub const SATOSHIS_PER_COIN: u64 = 100_000_000;

/// Reward of a block before fees: 50 coins.
pub const INITIAL_BLOCK_REWARD: u64 = 5_000_000_000;

/// Smallest fee that `is_valid_fee` accepts.
pub const MIN_TRANSACTION_FEE: u64 = 1_000;

/// Fee of a simple transaction.
pub const DEFAULT_TRANSACTION_FEE: u64 = 10_000;

/// Largest fee that `is_valid_fee` accepts.
pub const MAX_TRANSACTION_FEE: u64 = 1_000_000;

/// Outputs below this value are dust.
pub const DUST_THRESHOLD: u64 = 546;

} // verus!
