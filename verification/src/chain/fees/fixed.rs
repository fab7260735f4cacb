//! The fixed fee: every transaction pays the same amount.

use crate::chain::fees::dynamic::FeePriority;
use crate::chain::monetary::INITIAL_BLOCK_REWARD;
use crate::error::{owned, BlockchainError};
use vstd::prelude::*;

verus! {

/// A calculator that charges one amount, whatever the size or priority.
#[derive(Debug, Clone, Copy)]
pub struct FixedFeeCalculator {
    /// The fee of every transaction.
    pub fee_amount: u64,
    /// The block reward before fees.
    pub coinbase_reward: u64,
}

impl FixedFeeCalculator {
    /// A calculator that charges `fee_amount` and rewards a block with the
    /// initial block reward.
    pub fn new(fee_amount: u64) -> (out: Self)
        ensures
            out.fee_amount == fee_amount,
            out.coinbase_reward == INITIAL_BLOCK_REWARD,
    {
        Self { fee_amount, coinbase_reward: INITIAL_BLOCK_REWARD }
    }

    /// The fixed amount.
    pub fn calculate_fee(&self, _transaction_size: usize, _priority: Option<FeePriority>) -> (fee:
        u64)
        ensures
            fee == self.fee_amount,
    {
        self.fee_amount
    }

    /// `Ok` exactly where `fee` is the fixed amount, else `Transaction`.
    pub fn validate_fee(&self, fee: u64) -> (out: Result<(), BlockchainError>)
        ensures
            out is Ok <==> fee == self.fee_amount,
            out is Err ==> out->Err_0 is Transaction,
    {
        if fee == self.fee_amount {
            Ok(())
        } else {
            Err(BlockchainError::Transaction(owned("Invalid fee: not the fixed amount")))
        }
    }

    /// The block reward plus the collected fees.
    pub fn calculate_coinbase_reward(&self, collected_fees: u64) -> (reward: u64)
        requires
            self.coinbase_reward + collected_fees <= u64::MAX,
        ensures
            reward == self.coinbase_reward + collected_fees,
    {
        self.coinbase_reward + collected_fees
    }

    /// The fixed amount.
    pub fn get_fee_amount(&self) -> (fee: u64)
        ensures
            fee == self.fee_amount,
    {
        self.fee_amount
    }

    /// Replaces the fixed amount.
    pub fn set_fee_amount(&mut self, amount: u64)
        ensures
            final(self).fee_amount == amount,
            final(self).coinbase_reward == old(self).coinbase_reward,
    {
        self.fee_amount = amount;
    }
}

impl Default for FixedFeeCalculator {
    fn default() -> (out: Self)
        ensures
            out.fee_amount == 1,
            out.coinbase_reward == INITIAL_BLOCK_REWARD,
    {
        Self::new(1)
    }
}

} // verus!
