//! The fee engine: a fixed fee or a dynamic one, and the calculator that a
//! node holds for both.

pub mod calculator;
pub mod dynamic;
pub mod fixed;
pub mod statistics;

pub use calculator::{FeeMode, LegacyFeeCalculator, UnifiedFeeCalculator};
pub use dynamic::{DynamicFeeCalculator, DynamicFeeConfig, FeePriority, FeeStatistics};
pub use fixed::FixedFeeCalculator;

use crate::chain::fees::calculator::ModeModel;
use crate::chain::transaction::{transaction_models, Transaction, TransactionModel};
use crate::error::{owned, BlockchainError};
use vstd::prelude::*;

verus! {

/// The fee calculator of a node: the one place where the fee mode lives.
pub struct FeeCalculator {
    /// The calculator for the present mode.
    pub calculator: UnifiedFeeCalculator,
}

/// The sum of the fees of the transactions that are not coinbase.
pub open spec fn spec_total_fees(transactions: Seq<TransactionModel>) -> int
    decreases transactions.len(),
{
    if transactions.len() == 0 {
        0
    } else {
        spec_total_fees(transactions.drop_last()) + (if transactions.last().is_coinbase() {
            0
        } else {
            transactions.last().fee as int
        })
    }
}

/// The fees of a prefix are at most those of the whole.
pub proof fn lemma_total_fees_grows(transactions: Seq<TransactionModel>, k: int)
    requires
        0 <= k <= transactions.len(),
    ensures
        0 <= spec_total_fees(transactions.take(k)) <= spec_total_fees(transactions),
    decreases transactions.len(),
{
    if transactions.len() == 0 {
        assert(transactions.take(k) =~= transactions);
    } else if k == transactions.len() {
        assert(transactions.take(k) =~= transactions);
        lemma_total_fees_grows(transactions.drop_last(), k - 1);
    } else {
        lemma_total_fees_grows(transactions.drop_last(), k);
        assert(transactions.drop_last().take(k) =~= transactions.take(k));
    }
}

/// The size that a transaction with so many inputs and outputs is taken to
/// have: 18 bytes, 50 for each input and 20 for each output.
pub open spec fn spec_estimated_size(input_count: usize, output_count: usize) -> int {
    18 + 50 * input_count + 20 * output_count
}

impl FeeCalculator {
    /// The block reward before fees.
    pub const COINBASE_REWARD: u64 = 5_000_000_000;

    /// The fee of a simple transaction.
    pub const EDUCATIONAL_FEE: u64 = 10_000;

    /// The fee rate taken where none is given.
    pub const DEFAULT_FEE_RATE: u64 = 1;

    /// The least fee rate.
    pub const MIN_FEE_RATE: u64 = 1;

    /// The largest fee rate.
    pub const MAX_FEE_RATE: u64 = 1000;

    /// A calculator in the default mode: a fixed fee of 1.
    pub fn new() -> (out: Self)
        ensures
            out.calculator.fresh_for(ModeModel::Fixed { amount: 1 }),
    {
        FeeCalculator { calculator: UnifiedFeeCalculator::default() }
    }

    /// Replaces the calculator by a fresh one for `mode`; where a dynamic
    /// configuration is not valid, nothing changes and the result is `Config`.
    pub fn initialize(&mut self, mode: FeeMode) -> (out: Result<(), BlockchainError>)
        ensures
            out is Ok <==> (mode@ is Dynamic ==> mode@->config.valid()),
            out is Ok ==> final(self).calculator.fresh_for(mode@),
            out is Err ==> out->Err_0 is Config && final(self).calculator == old(self).calculator,
    {
        match UnifiedFeeCalculator::new(mode) {
            Ok(calculator) => {
                self.calculator = calculator;
                Ok(())
            },
            Err(e) => Err(e),
        }
    }

    /// The fee for a transaction at the given mempool size.
    pub fn calculate_fee(
        &self,
        transaction_size: usize,
        priority: Option<FeePriority>,
        mempool_size: usize,
    ) -> (fee: u64)
        ensures
            fee == self.calculator.spec_fee(priority, mempool_size),
    {
        self.calculator.calculate_fee(transaction_size, priority, mempool_size)
    }

    /// The fee to expect for `priority` at the given mempool size.
    pub fn estimate_fee(&self, priority: FeePriority, mempool_size: usize) -> (fee: u64)
        ensures
            fee == self.calculator.spec_estimate(priority, mempool_size),
    {
        self.calculator.estimate_fee(priority, mempool_size)
    }

    /// `Ok` exactly where `fee` is accepted in the present state, else
    /// `Transaction`.
    pub fn validate_fee(&self, fee: u64, priority: Option<FeePriority>, mempool_size: usize) -> (out:
        Result<(), BlockchainError>)
        ensures
            out is Ok <==> self.calculator.spec_accepts(fee, priority, mempool_size),
            out is Err ==> out->Err_0 is Transaction,
    {
        self.calculator.validate_fee(fee, priority, mempool_size)
    }

    /// The block reward plus the collected fees.
    pub fn calculate_coinbase_reward(&self, collected_fees: u64) -> (reward: u64)
        requires
            self.calculator.spec_base_reward() + collected_fees <= u64::MAX,
        ensures
            reward == self.calculator.spec_base_reward() + collected_fees,
    {
        self.calculator.calculate_coinbase_reward(collected_fees)
    }

    /// A copy of the mode.
    pub fn get_fee_mode(&self) -> (mode: FeeMode)
        ensures
            mode@ == self.calculator.spec_mode(),
    {
        self.calculator.get_mode().copy()
    }

    /// Changes the mode; see `UnifiedFeeCalculator::switch_mode`.
    pub fn switch_fee_mode(&mut self, new_mode: FeeMode) -> (out: Result<(), BlockchainError>)
        ensures
            final(self).calculator.spec_mode() == new_mode@,
            out is Ok <==> (new_mode@ is Dynamic ==> new_mode@->config.valid()),
            out is Ok ==> final(self).calculator.fresh_for(new_mode@),
            out is Err ==> out->Err_0 is Config && final(self).calculator.spec_fixed() == old(self).calculator.spec_fixed() && final(self).calculator.spec_dynamic() == old(self).calculator.spec_dynamic(),
    {
        self.calculator.switch_mode(new_mode)
    }

    /// Whether the mode is dynamic.
    pub fn is_dynamic_enabled(&self) -> (yes: bool)
        ensures
            yes == (self.calculator.spec_mode() is Dynamic),
    {
        self.calculator.is_dynamic_enabled()
    }

    /// The figures of the fee market, where the mode is dynamic.
    pub fn get_fee_statistics(&self, mempool_size: usize) -> (out: Option<FeeStatistics>)
        ensures
            out is Some <==> self.calculator.spec_mode() is Dynamic
                && self.calculator.spec_dynamic() is Some,
            out is Some ==> out->Some_0.describes(
                self.calculator.spec_dynamic()->Some_0,
                mempool_size,
            ),
    {
        self.calculator.get_fee_statistics(mempool_size)
    }

    /// The mode in words.
    pub fn get_config_summary(&self) -> (text: String)
        ensures
            text@ == UnifiedFeeCalculator::spec_summary(self.calculator.spec_mode()),
    {
        self.calculator.get_config_summary()
    }

    /// Replaces the configuration of a dynamic mode; see
    /// `UnifiedFeeCalculator::update_dynamic_config`.
    pub fn update_dynamic_config(&mut self, config: DynamicFeeConfig) -> (out: Result<
        (),
        BlockchainError,
    >)
        ensures
            final(self).calculator.spec_fixed() == old(self).calculator.spec_fixed(),
            old(self).calculator.spec_mode() is Fixed ==> out is Err && final(self).calculator.spec_mode() == old(self).calculator.spec_mode() && final(self).calculator.spec_dynamic() == old(self).calculator.spec_dynamic(),
            old(self).calculator.spec_mode() is Dynamic ==> final(self).calculator.spec_mode() == (ModeModel::Dynamic {
                config: config@,
            }) && (out is Ok <==> old(self).calculator.spec_dynamic() is None || config@.valid())
                && final(self).calculator.spec_dynamic() == (if old(self).calculator.spec_dynamic() is Some
                && config@.valid() {
                Some(config@)
            } else {
                old(self).calculator.spec_dynamic()
            }),
            out is Err ==> out->Err_0 is Config,
    {
        self.calculator.update_dynamic_config(config)
    }

    /// Replaces the amount of a fixed mode; `Config` in a dynamic mode.
    pub fn update_fixed_fee(&mut self, amount: u64) -> (out: Result<(), BlockchainError>)
        ensures
            final(self).calculator.spec_dynamic() == old(self).calculator.spec_dynamic(),
            out is Ok <==> old(self).calculator.spec_mode() is Fixed,
            out is Ok ==> final(self).calculator.spec_mode() == (ModeModel::Fixed { amount: amount })
                && final(self).calculator.spec_fixed() == (match old(self).calculator.spec_fixed() {
                Some(calculator) => Some(
                    FixedFeeCalculator {
                        fee_amount: amount,
                        coinbase_reward: calculator.coinbase_reward,
                    },
                ),
                None => None,
            }),
            out is Err ==> out->Err_0 is Config && final(self).calculator.spec_mode() == old(self).calculator.spec_mode()
                && final(self).calculator.spec_fixed() == old(self).calculator.spec_fixed(),
    {
        self.calculator.update_fixed_fee(amount)
    }

    /// Size times rate; `Transaction` for a size of zero.
    pub fn calculate_legacy_fee(transaction_size: usize, fee_rate: u64) -> (out: Result<
        u64,
        BlockchainError,
    >)
        requires
            transaction_size * fee_rate <= u64::MAX,
        ensures
            transaction_size == 0 ==> out is Err && out->Err_0 is Transaction,
            transaction_size != 0 ==> out is Ok && out->Ok_0 == transaction_size * fee_rate,
    {
        LegacyFeeCalculator::calculate_fee(transaction_size, fee_rate)
    }

    /// `Ok` exactly where the rate lies between 1 and 1000, else `Transaction`.
    pub fn validate_fee_rate(fee_rate: u64) -> (out: Result<(), BlockchainError>)
        ensures
            out is Ok <==> 1 <= fee_rate <= 1000,
            out is Err ==> out->Err_0 is Transaction,
    {
        LegacyFeeCalculator::validate_fee_rate(fee_rate)
    }

    /// `Ok` exactly where the size is positive and the fee per byte, rounded
    /// down, lies between 1 and 1000; else `Transaction`.
    pub fn validate_fee_amount(fee: u64, transaction_size: usize) -> (out: Result<
        (),
        BlockchainError,
    >)
        ensures
            out is Ok <==> transaction_size != 0 && 1 <= fee as int / transaction_size as int
                <= 1000,
            out is Err ==> out->Err_0 is Transaction,
    {
        if transaction_size == 0 {
            return Err(
                BlockchainError::Transaction(
                    owned("Cannot validate fee for zero-size transaction"),
                ),
            );
        }
        let fee_rate = fee / transaction_size as u64;
        Self::validate_fee_rate(fee_rate)
    }

    /// The fee per byte, rounded down; `Transaction` for a size of zero.
    pub fn calculate_fee_rate(fee: u64, transaction_size: usize) -> (out: Result<
        u64,
        BlockchainError,
    >)
        ensures
            transaction_size == 0 ==> out is Err && out->Err_0 is Transaction,
            transaction_size != 0 ==> out is Ok && out->Ok_0 == fee as int
                / transaction_size as int,
    {
        if transaction_size == 0 {
            return Err(
                BlockchainError::Transaction(
                    owned("Transaction size cannot be zero for fee rate calculation"),
                ),
            );
        }
        Ok(fee / transaction_size as u64)
    }

    /// The estimated size of a transaction, or the largest size that can be
    /// held where the estimate is larger.
    pub fn estimate_transaction_size(input_count: usize, output_count: usize) -> (size: usize)
        ensures
            size == (if spec_estimated_size(input_count, output_count) <= usize::MAX {
                spec_estimated_size(input_count, output_count)
            } else {
                usize::MAX as int
            }),
    {
        let input_size = match input_count.checked_mul(50) {
            Some(n) => n,
            None => { return usize::MAX; },
        };
        let output_size = match output_count.checked_mul(20) {
            Some(n) => n,
            None => { return usize::MAX; },
        };
        let both = match input_size.checked_add(output_size) {
            Some(n) => n,
            None => { return usize::MAX; },
        };
        match both.checked_add(18) {
            Some(n) => n,
            None => usize::MAX,
        }
    }

    /// The sum of the fees of the transactions that are not coinbase, or
    /// `None` where it does not fit in 64 bits.
    pub fn checked_total_fees(transactions: &[Transaction]) -> (out: Option<u64>)
        ensures
            match out {
                Some(total) => total == spec_total_fees(transaction_models(transactions@)),
                None => spec_total_fees(transaction_models(transactions@)) > u64::MAX,
            },
    {
        let ghost models = transaction_models(transactions@);
        let mut total: u64 = 0;
        let mut i: usize = 0;
        assert(models.take(0) =~= Seq::<TransactionModel>::empty());
        while i < transactions.len()
            invariant
                i <= transactions@.len(),
                models == transaction_models(transactions@),
                models.len() == transactions@.len(),
                total == spec_total_fees(models.take(i as int)),
            decreases transactions@.len() - i,
        {
            proof {
                assert(models.take(i + 1).drop_last() =~= models.take(i as int));
                assert(models.take(i + 1).last() == transactions@[i as int]@);
            }
            if !transactions[i].is_coinbase() {
                match total.checked_add(transactions[i].get_fee()) {
                    Some(sum) => { total = sum; },
                    None => {
                        proof {
                            lemma_total_fees_grows(models, i + 1);
                        }
                        return None;
                    },
                }
            }
            i += 1;
        }
        assert(models.take(models.len() as int) =~= models);
        Some(total)
    }

    /// The sum of the fees of the transactions that are not coinbase.
    pub fn calculate_total_fees(transactions: &[Transaction]) -> (total: u64)
        requires
            spec_total_fees(transaction_models(transactions@)) <= u64::MAX,
        ensures
            total == spec_total_fees(transaction_models(transactions@)),
    {
        match Self::checked_total_fees(transactions) {
            Some(total) => total,
            None => 0,
        }
    }
}

impl Default for FeeCalculator {
    fn default() -> (out: Self)
        ensures
            out.calculator.fresh_for(ModeModel::Fixed { amount: 1 }),
    {
        FeeCalculator::new()
    }
}

} // verus!
