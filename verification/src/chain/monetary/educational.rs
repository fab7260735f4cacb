//! Round amounts for examples.

use vstd::prelude::*;

verus! {

/// A thousandth of a coin.
pub const SMALL_AMOUNT: u64 = 100_000;

/// A tenth of a coin.
pub const MEDIUM_AMOUNT: u64 = 10_000_000;

/// Ten coins.
pub const LARGE_AMOUNT: u64 = 1_000_000_000;

} // verus!
