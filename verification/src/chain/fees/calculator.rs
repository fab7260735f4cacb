//! One calculator for both fee modes, and the fee-rate rules of old.

use crate::chain::fees::dynamic::{
    ConfigModel, DynamicFeeCalculator, DynamicFeeConfig, FeePriority, FeeStatistics,
};
use crate::chain::fees::fixed::FixedFeeCalculator;
use crate::chain::monetary::INITIAL_BLOCK_REWARD;
use crate::error::{decimal_text, owned, spec_decimal, BlockchainError};
use vstd::prelude::*;
use vstd::string::*;

verus! {

/// How fees are set.
pub enum FeeMode {
    /// Every transaction pays `amount`.
    Fixed { amount: u64 },
    /// Fees follow priority and congestion.
    Dynamic { config: DynamicFeeConfig },
}

/// What a fee mode is.
pub enum ModeModel {
    Fixed { amount: u64 },
    Dynamic { config: ConfigModel },
}

impl View for FeeMode {
    type V = ModeModel;

    open spec fn view(&self) -> ModeModel {
        match self {
            FeeMode::Fixed { amount } => ModeModel::Fixed { amount: *amount },
            FeeMode::Dynamic { config } => ModeModel::Dynamic { config: config@ },
        }
    }
}

impl FeeMode {
    /// A copy of the mode.
    pub fn copy(&self) -> (out: Self)
        ensures
            out@ == self@,
    {
        match self {
            FeeMode::Fixed { amount } => FeeMode::Fixed { amount: *amount },
            FeeMode::Dynamic { config } => FeeMode::Dynamic { config: config.copy() },
        }
    }
}

impl Default for FeeMode {
    fn default() -> (out: Self)
        ensures
            out@ == (ModeModel::Fixed { amount: 1 }),
    {
        FeeMode::Fixed { amount: 1 }
    }
}

/// The calculators that a mode asks for: the fixed one for a fixed mode, the
/// dynamic one for a dynamic mode with a valid configuration.
pub struct UnifiedFeeCalculator {
    mode: FeeMode,
    fixed_calculator: Option<FixedFeeCalculator>,
    dynamic_calculator: Option<DynamicFeeCalculator>,
}

/// The priority that is meant where none is given.
pub open spec fn spec_priority_or_normal(priority: Option<FeePriority>) -> FeePriority {
    match priority {
        Some(p) => p,
        None => FeePriority::Normal,
    }
}

impl UnifiedFeeCalculator {
    /// The mode.
    pub closed spec fn spec_mode(&self) -> ModeModel {
        self.mode@
    }

    /// The fixed calculator, if there is one.
    pub closed spec fn spec_fixed(&self) -> Option<FixedFeeCalculator> {
        self.fixed_calculator
    }

    /// The configuration of the dynamic calculator, if there is one.
    pub closed spec fn spec_dynamic(&self) -> Option<ConfigModel> {
        match self.dynamic_calculator {
            Some(calculator) => Some(calculator@),
            None => None,
        }
    }

    /// The state in which `new(mode)` leaves a calculator.
    pub open spec fn fresh_for(&self, mode: ModeModel) -> bool {
        &&& self.spec_mode() == mode
        &&& match mode {
            ModeModel::Fixed { amount } => self.spec_dynamic() is None && self.spec_fixed() == Some(
                FixedFeeCalculator { fee_amount: amount, coinbase_reward: INITIAL_BLOCK_REWARD },
            ),
            ModeModel::Dynamic { config } => self.spec_fixed() is None && self.spec_dynamic()
                == Some(config),
        }
    }

    /// The fee in the present state: the fixed amount, or the dynamic fee for
    /// the priority (normal where none is given) and the mempool size; 1 where
    /// the calculator of the mode is missing.
    pub open spec fn spec_fee(&self, priority: Option<FeePriority>, mempool_size: usize) -> int {
        match self.spec_mode() {
            ModeModel::Fixed { .. } => match self.spec_fixed() {
                Some(calculator) => calculator.fee_amount as int,
                None => 1,
            },
            ModeModel::Dynamic { .. } => match self.spec_dynamic() {
                Some(config) => config.fee(spec_priority_or_normal(priority), mempool_size),
                None => 1,
            },
        }
    }

    /// The estimate in the present state: the amount of a fixed mode, or the
    /// dynamic fee; 1 where the dynamic calculator is missing.
    pub open spec fn spec_estimate(&self, priority: FeePriority, mempool_size: usize) -> int {
        match self.spec_mode() {
            ModeModel::Fixed { amount } => amount as int,
            ModeModel::Dynamic { .. } => match self.spec_dynamic() {
                Some(config) => config.fee(priority, mempool_size),
                None => 1,
            },
        }
    }

    /// Whether `fee` is accepted in the present state.
    pub open spec fn spec_accepts(
        &self,
        fee: u64,
        priority: Option<FeePriority>,
        mempool_size: usize,
    ) -> bool {
        match self.spec_mode() {
            ModeModel::Fixed { .. } => match self.spec_fixed() {
                Some(calculator) => fee == calculator.fee_amount,
                None => true,
            },
            ModeModel::Dynamic { .. } => match self.spec_dynamic() {
                Some(config) => config.accepts(
                    fee,
                    spec_priority_or_normal(priority),
                    mempool_size,
                ),
                None => true,
            },
        }
    }

    /// The block reward before fees in the present state.
    pub open spec fn spec_base_reward(&self) -> int {
        match self.spec_mode() {
            ModeModel::Fixed { .. } => match self.spec_fixed() {
                Some(calculator) => calculator.coinbase_reward as int,
                None => INITIAL_BLOCK_REWARD as int,
            },
            ModeModel::Dynamic { .. } => match self.spec_dynamic() {
                Some(config) => config.coinbase_reward as int,
                None => INITIAL_BLOCK_REWARD as int,
            },
        }
    }

    /// A calculator for `mode`; `Config` where a dynamic configuration is not
    /// valid.
    pub fn new(mode: FeeMode) -> (out: Result<Self, BlockchainError>)
        ensures
            out is Ok <==> (mode@ is Dynamic ==> mode@->config.valid()),
            out is Ok ==> out->Ok_0.fresh_for(mode@),
            out is Err ==> out->Err_0 is Config,
    {
        let mut calculator = Self { mode, fixed_calculator: None, dynamic_calculator: None };
        match calculator.initialize_calculators() {
            Ok(()) => Ok(calculator),
            Err(e) => Err(e),
        }
    }

    /// Sets up the calculator that the mode asks for. Where a dynamic
    /// configuration is not valid, both calculators stay as they were.
    fn initialize_calculators(&mut self) -> (out: Result<(), BlockchainError>)
        ensures
            final(self).spec_mode() == old(self).spec_mode(),
            out is Ok <==> (old(self).spec_mode() is Dynamic ==> old(self).spec_mode()->config.valid()),
            out is Ok ==> final(self).fresh_for(old(self).spec_mode()),
            out is Err ==> out->Err_0 is Config && final(self).spec_fixed() == old(self).spec_fixed() && final(self).spec_dynamic() == old(self).spec_dynamic(),
    {
        match &self.mode {
            FeeMode::Fixed { amount } => {
                self.fixed_calculator = Some(FixedFeeCalculator::new(*amount));
                self.dynamic_calculator = None;
                Ok(())
            },
            FeeMode::Dynamic { config } => {
                match DynamicFeeCalculator::new(config.copy()) {
                    Ok(calculator) => {
                        self.dynamic_calculator = Some(calculator);
                        self.fixed_calculator = None;
                        Ok(())
                    },
                    Err(e) => Err(e),
                }
            },
        }
    }

    /// The fee for a transaction at the given mempool size.
    pub fn calculate_fee(
        &self,
        transaction_size: usize,
        priority: Option<FeePriority>,
        mempool_size: usize,
    ) -> (fee: u64)
        ensures
            fee == self.spec_fee(priority, mempool_size),
    {
        self.calculate_fee_with_mempool_size(transaction_size, priority, mempool_size)
    }

    /// The fee for a transaction at the given mempool size.
    pub fn calculate_fee_with_mempool_size(
        &self,
        transaction_size: usize,
        priority: Option<FeePriority>,
        mempool_size: usize,
    ) -> (fee: u64)
        ensures
            fee == self.spec_fee(priority, mempool_size),
    {
        match &self.mode {
            FeeMode::Fixed { .. } => match &self.fixed_calculator {
                Some(calculator) => calculator.calculate_fee(transaction_size, priority),
                None => 1,
            },
            FeeMode::Dynamic { .. } => match &self.dynamic_calculator {
                Some(calculator) => {
                    let priority = match priority {
                        Some(p) => p,
                        None => FeePriority::Normal,
                    };
                    calculator.calculate_fee(priority, mempool_size)
                },
                None => 1,
            },
        }
    }

    /// The fee to expect for `priority` at the given mempool size.
    pub fn estimate_fee(&self, priority: FeePriority, mempool_size: usize) -> (fee: u64)
        ensures
            fee == self.spec_estimate(priority, mempool_size),
    {
        match &self.mode {
            FeeMode::Fixed { amount } => *amount,
            FeeMode::Dynamic { .. } => match &self.dynamic_calculator {
                Some(calculator) => calculator.calculate_fee(priority, mempool_size),
                None => 1,
            },
        }
    }

    /// `Ok` exactly where `fee` is accepted in the present state, else
    /// `Transaction`.
    pub fn validate_fee(&self, fee: u64, priority: Option<FeePriority>, mempool_size: usize) -> (out:
        Result<(), BlockchainError>)
        ensures
            out is Ok <==> self.spec_accepts(fee, priority, mempool_size),
            out is Err ==> out->Err_0 is Transaction,
    {
        match &self.mode {
            FeeMode::Fixed { .. } => match &self.fixed_calculator {
                Some(calculator) => calculator.validate_fee(fee),
                None => Ok(()),
            },
            FeeMode::Dynamic { .. } => match &self.dynamic_calculator {
                Some(calculator) => {
                    let priority = match priority {
                        Some(p) => p,
                        None => FeePriority::Normal,
                    };
                    calculator.validate_fee(fee, priority, mempool_size)
                },
                None => Ok(()),
            },
        }
    }

    /// The block reward plus the collected fees.
    pub fn calculate_coinbase_reward(&self, collected_fees: u64) -> (reward: u64)
        requires
            self.spec_base_reward() + collected_fees <= u64::MAX,
        ensures
            reward == self.spec_base_reward() + collected_fees,
    {
        match &self.mode {
            FeeMode::Fixed { .. } => match &self.fixed_calculator {
                Some(calculator) => calculator.calculate_coinbase_reward(collected_fees),
                None => INITIAL_BLOCK_REWARD + collected_fees,
            },
            FeeMode::Dynamic { .. } => match &self.dynamic_calculator {
                Some(calculator) => calculator.calculate_coinbase_reward(collected_fees),
                None => INITIAL_BLOCK_REWARD + collected_fees,
            },
        }
    }

    /// The mode.
    pub fn get_mode(&self) -> (mode: &FeeMode)
        ensures
            mode@ == self.spec_mode(),
    {
        &self.mode
    }

    /// Changes the mode and sets up its calculator. Where the new mode is
    /// dynamic with a configuration that is not valid, the mode changes all
    /// the same, the calculators stay as they were and the result is `Config`.
    pub fn switch_mode(&mut self, new_mode: FeeMode) -> (out: Result<(), BlockchainError>)
        ensures
            final(self).spec_mode() == new_mode@,
            out is Ok <==> (new_mode@ is Dynamic ==> new_mode@->config.valid()),
            out is Ok ==> final(self).fresh_for(new_mode@),
            out is Err ==> out->Err_0 is Config && final(self).spec_fixed() == old(self).spec_fixed() && final(self).spec_dynamic() == old(self).spec_dynamic(),
    {
        self.mode = new_mode;
        self.initialize_calculators()
    }

    /// Whether the mode is dynamic.
    pub fn is_dynamic_enabled(&self) -> (yes: bool)
        ensures
            yes == (self.spec_mode() is Dynamic),
    {
        match &self.mode {
            FeeMode::Dynamic { .. } => true,
            FeeMode::Fixed { .. } => false,
        }
    }

    /// Whether the mode is fixed.
    pub fn is_fixed_enabled(&self) -> (yes: bool)
        ensures
            yes == (self.spec_mode() is Fixed),
    {
        match &self.mode {
            FeeMode::Fixed { .. } => true,
            FeeMode::Dynamic { .. } => false,
        }
    }

    /// The figures of the fee market, where the mode is dynamic and its
    /// calculator is there.
    pub fn get_fee_statistics(&self, mempool_size: usize) -> (out: Option<FeeStatistics>)
        ensures
            out is Some <==> self.spec_mode() is Dynamic && self.spec_dynamic() is Some,
            out is Some ==> out->Some_0.describes(self.spec_dynamic()->Some_0, mempool_size),
    {
        match &self.mode {
            FeeMode::Dynamic { .. } => match &self.dynamic_calculator {
                Some(calculator) => Some(calculator.get_fee_statistics(mempool_size)),
                None => None,
            },
            FeeMode::Fixed { .. } => None,
        }
    }

    /// The text of the summary of a mode.
    pub open spec fn spec_summary(mode: ModeModel) -> Seq<char> {
        match mode {
            ModeModel::Fixed { amount } => "Fixed fee: "@ + spec_decimal(amount as nat) + " coins"@,
            ModeModel::Dynamic { config } => "Dynamic fees: base "@ + spec_decimal(
                config.base_fee as nat,
            ) + " coins, max "@ + spec_decimal(config.max_fee as nat) + " coins, threshold "@
                + spec_decimal(config.congestion_threshold as nat) + " transactions"@,
        }
    }

    /// The mode in words.
    pub fn get_config_summary(&self) -> (text: String)
        ensures
            text@ == Self::spec_summary(self.spec_mode()),
    {
        match &self.mode {
            FeeMode::Fixed { amount } => {
                let text = String::from_str("Fixed fee: ").concat(
                    decimal_text(*amount).as_str(),
                ).concat(" coins");
                assert(text@ =~= Self::spec_summary(self.spec_mode()));
                text
            },
            FeeMode::Dynamic { config } => {
                let text = String::from_str("Dynamic fees: base ").concat(
                    decimal_text(config.base_fee).as_str(),
                ).concat(" coins, max ").concat(decimal_text(config.max_fee).as_str()).concat(
                    " coins, threshold ",
                ).concat(decimal_text(config.congestion_threshold as u64).as_str()).concat(
                    " transactions",
                );
                assert(text@ =~= Self::spec_summary(self.spec_mode()));
                text
            },
        }
    }

    /// Replaces the configuration of a dynamic mode. In a fixed mode nothing
    /// changes and the result is `Config`. In a dynamic mode the mode takes
    /// the new configuration; the calculator takes it where it is valid, and
    /// the result is `Config` where it is not.
    pub fn update_dynamic_config(&mut self, new_config: DynamicFeeConfig) -> (out: Result<
        (),
        BlockchainError,
    >)
        ensures
            final(self).spec_fixed() == old(self).spec_fixed(),
            old(self).spec_mode() is Fixed ==> out is Err && final(self).spec_mode() == old(self).spec_mode() && final(self).spec_dynamic() == old(self).spec_dynamic(),
            old(self).spec_mode() is Dynamic ==> final(self).spec_mode() == (ModeModel::Dynamic {
                config: new_config@,
            }) && (out is Ok <==> old(self).spec_dynamic() is None || new_config@.valid())
                && final(self).spec_dynamic() == (if old(self).spec_dynamic() is Some
                && new_config@.valid() {
                Some(new_config@)
            } else {
                old(self).spec_dynamic()
            }),
            out is Err ==> out->Err_0 is Config,
    {
        match &self.mode {
            FeeMode::Dynamic { .. } => {
                self.mode = FeeMode::Dynamic { config: new_config.copy() };
                let current = self.dynamic_calculator.take();
                match current {
                    Some(mut calculator) => {
                        let updated = calculator.update_config(new_config);
                        self.dynamic_calculator = Some(calculator);
                        updated
                    },
                    None => Ok(()),
                }
            },
            FeeMode::Fixed { .. } => Err(
                BlockchainError::Config(owned("Cannot update dynamic config in fixed fee mode")),
            ),
        }
    }

    /// Replaces the amount of a fixed mode. In a dynamic mode nothing changes
    /// and the result is `Config`.
    pub fn update_fixed_fee(&mut self, new_amount: u64) -> (out: Result<(), BlockchainError>)
        ensures
            final(self).spec_dynamic() == old(self).spec_dynamic(),
            out is Ok <==> old(self).spec_mode() is Fixed,
            out is Ok ==> final(self).spec_mode() == (ModeModel::Fixed { amount: new_amount })
                && final(self).spec_fixed() == (match old(self).spec_fixed() {
                Some(calculator) => Some(
                    FixedFeeCalculator {
                        fee_amount: new_amount,
                        coinbase_reward: calculator.coinbase_reward,
                    },
                ),
                None => None,
            }),
            out is Err ==> out->Err_0 is Config && final(self).spec_mode() == old(self).spec_mode()
                && final(self).spec_fixed() == old(self).spec_fixed(),
    {
        match &self.mode {
            FeeMode::Fixed { .. } => {
                self.mode = FeeMode::Fixed { amount: new_amount };
                match self.fixed_calculator {
                    Some(calculator) => {
                        let mut updated = calculator;
                        updated.set_fee_amount(new_amount);
                        self.fixed_calculator = Some(updated);
                    },
                    None => {},
                }
                Ok(())
            },
            FeeMode::Dynamic { .. } => Err(
                BlockchainError::Config(owned("Cannot update fixed fee in dynamic fee mode")),
            ),
        }
    }
}

impl Default for UnifiedFeeCalculator {
    fn default() -> (out: Self)
        ensures
            out.fresh_for(ModeModel::Fixed { amount: 1 }),
    {
        Self {
            mode: FeeMode::Fixed { amount: 1 },
            fixed_calculator: Some(FixedFeeCalculator::new(1)),
            dynamic_calculator: None,
        }
    }
}

/// The fee-rate rules of old: a fee is a rate per byte.
pub struct LegacyFeeCalculator;

/// The least fee rate.
pub const MIN_FEE_RATE: u64 = 1;

/// The largest fee rate.
pub const MAX_FEE_RATE: u64 = 1000;

impl LegacyFeeCalculator {
    /// Size times rate; `Transaction` for a size of zero.
    pub fn calculate_fee(transaction_size: usize, fee_rate: u64) -> (out: Result<
        u64,
        BlockchainError,
    >)
        requires
            transaction_size * fee_rate <= u64::MAX,
        ensures
            transaction_size == 0 ==> out is Err && out->Err_0 is Transaction,
            transaction_size != 0 ==> out is Ok && out->Ok_0 == transaction_size * fee_rate,
    {
        if transaction_size == 0 {
            return Err(BlockchainError::Transaction(owned("Transaction size cannot be zero")));
        }
        Ok(transaction_size as u64 * fee_rate)
    }

    /// `Ok` exactly where the rate lies between 1 and 1000, else `Transaction`.
    pub fn validate_fee_rate(fee_rate: u64) -> (out: Result<(), BlockchainError>)
        ensures
            out is Ok <==> MIN_FEE_RATE <= fee_rate <= MAX_FEE_RATE,
            out is Err ==> out->Err_0 is Transaction,
    {
        if fee_rate < MIN_FEE_RATE {
            return Err(BlockchainError::Transaction(owned("Fee rate below minimum")));
        }
        if fee_rate > MAX_FEE_RATE {
            return Err(BlockchainError::Transaction(owned("Fee rate above maximum")));
        }
        Ok(())
    }

    /// The initial block reward plus the collected fees.
    pub fn calculate_coinbase_reward(collected_fees: u64) -> (reward: u64)
        requires
            INITIAL_BLOCK_REWARD + collected_fees <= u64::MAX,
        ensures
            reward == INITIAL_BLOCK_REWARD + collected_fees,
    {
        INITIAL_BLOCK_REWARD + collected_fees
    }
}

} // verus!
