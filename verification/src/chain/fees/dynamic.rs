//! The dynamic fee: the base fee scaled by the priority of the transaction and
//! by the congestion of the mempool, kept between the base fee and the cap.
//! Multipliers are exact: a priority multiplier is held in hundredths, the
//! congestion multiplier as a fraction.

use crate::error::{owned, BlockchainError};
use vstd::prelude::*;

verus! {

/// How urgent a transaction is.
#[derive(Debug, Clone, Copy, PartialEq, Eq, Hash, Structural)]
pub enum FeePriority {
    Low,
    Normal,
    High,
    Urgent,
}

impl Default for FeePriority {
    fn default() -> (out: Self)
        ensures
            out == FeePriority::Normal,
    {
        FeePriority::Normal
    }
}

/// The lower-case form of a text.
pub uninterp spec fn spec_lowercase(text: Seq<char>) -> Seq<char>;

/// Calls `str::to_lowercase`.
#[verifier::external_body]
pub(crate) fn lowercase(text: &str) -> (out: String)
    ensures
        out@ == spec_lowercase(text@),
{
    text.to_lowercase()
}

/// The priority that a lower-case name stands for.
pub open spec fn spec_priority_named(name: Seq<char>) -> Option<FeePriority> {
    if name == "low"@ {
        Some(FeePriority::Low)
    } else if name == "normal"@ {
        Some(FeePriority::Normal)
    } else if name == "high"@ {
        Some(FeePriority::High)
    } else if name == "urgent"@ {
        Some(FeePriority::Urgent)
    } else {
        None
    }
}

impl FeePriority {
    /// The name of the priority, in lower case.
    pub open spec fn spec_name(self) -> Seq<char> {
        match self {
            FeePriority::Low => "low"@,
            FeePriority::Normal => "normal"@,
            FeePriority::High => "high"@,
            FeePriority::Urgent => "urgent"@,
        }
    }

    /// The name of the priority, in lower case.
    pub fn to_string(&self) -> (name: String)
        ensures
            name@ == self.spec_name(),
    {
        match self {
            FeePriority::Low => owned("low"),
            FeePriority::Normal => owned("normal"),
            FeePriority::High => owned("high"),
            FeePriority::Urgent => owned("urgent"),
        }
    }

    /// The priority that `s` names, whatever the case of its letters;
    /// `Config` where it names none.
    pub fn parse(s: &str) -> (out: Result<FeePriority, BlockchainError>)
        ensures
            match spec_priority_named(spec_lowercase(s@)) {
                Some(priority) => out == Ok::<FeePriority, BlockchainError>(priority),
                None => out is Err && out->Err_0 is Config,
            },
    {
        let lower = lowercase(s);
        if lower == owned("low") {
            Ok(FeePriority::Low)
        } else if lower == owned("normal") {
            Ok(FeePriority::Normal)
        } else if lower == owned("high") {
            Ok(FeePriority::High)
        } else if lower == owned("urgent") {
            Ok(FeePriority::Urgent)
        } else {
            Err(BlockchainError::Config(owned("Invalid priority")))
        }
    }
}

impl std::str::FromStr for FeePriority {
    type Err = BlockchainError;

    fn from_str(s: &str) -> (out: Result<Self, BlockchainError>)
        ensures
            match spec_priority_named(spec_lowercase(s@)) {
                Some(priority) => out == Ok::<FeePriority, BlockchainError>(priority),
                None => out is Err && out->Err_0 is Config,
            },
    {
        FeePriority::parse(s)
    }
}

/// A priority and its multiplier in hundredths.
pub struct PriorityMultiplier {
    pub priority: FeePriority,
    pub hundredths: u32,
}

/// The multiplier that a list gives to a priority: that of the first entry
/// for it.
pub open spec fn spec_multiplier(multipliers: Seq<PriorityMultiplier>, priority: FeePriority)
    -> Option<u32>
    decreases multipliers.len(),
{
    if multipliers.len() == 0 {
        None
    } else if multipliers[0].priority == priority {
        Some(multipliers[0].hundredths)
    } else {
        spec_multiplier(multipliers.drop_first(), priority)
    }
}

/// The parameters of the dynamic fee.
pub struct DynamicFeeConfig {
    /// The base fee, which is also the least fee.
    pub base_fee: u64,
    /// The cap.
    pub max_fee: u64,
    /// The mempool size above which the mempool counts as congested.
    pub congestion_threshold: usize,
    /// The multipliers of the priorities, in hundredths.
    pub priority_multipliers: Vec<PriorityMultiplier>,
    /// The block reward before fees.
    pub coinbase_reward: u64,
}

/// What a configuration is.
pub struct ConfigModel {
    pub base_fee: u64,
    pub max_fee: u64,
    pub congestion_threshold: usize,
    pub priority_multipliers: Seq<PriorityMultiplier>,
    pub coinbase_reward: u64,
}

impl View for DynamicFeeConfig {
    type V = ConfigModel;

    open spec fn view(&self) -> ConfigModel {
        ConfigModel {
            base_fee: self.base_fee,
            max_fee: self.max_fee,
            congestion_threshold: self.congestion_threshold,
            priority_multipliers: self.priority_multipliers@,
            coinbase_reward: self.coinbase_reward,
        }
    }
}

/// The multipliers that a configuration starts with: a half, one, two, three.
pub open spec fn spec_default_multipliers() -> Seq<PriorityMultiplier> {
    seq![
        PriorityMultiplier { priority: FeePriority::Low, hundredths: 50 },
        PriorityMultiplier { priority: FeePriority::Normal, hundredths: 100 },
        PriorityMultiplier { priority: FeePriority::High, hundredths: 200 },
        PriorityMultiplier { priority: FeePriority::Urgent, hundredths: 300 },
    ]
}

impl ConfigModel {
    /// A configuration is valid when the base fee is positive, the cap is not
    /// below it, the threshold is positive and every priority has a multiplier.
    pub open spec fn valid(self) -> bool {
        &&& self.base_fee != 0
        &&& self.max_fee >= self.base_fee
        &&& self.congestion_threshold != 0
        &&& spec_multiplier(self.priority_multipliers, FeePriority::Low) is Some
        &&& spec_multiplier(self.priority_multipliers, FeePriority::Normal) is Some
        &&& spec_multiplier(self.priority_multipliers, FeePriority::High) is Some
        &&& spec_multiplier(self.priority_multipliers, FeePriority::Urgent) is Some
    }

    /// The multiplier of a priority in hundredths; one where the list has none.
    pub open spec fn multiplier(self, priority: FeePriority) -> int {
        match spec_multiplier(self.priority_multipliers, priority) {
            Some(hundredths) => hundredths as int,
            None => 100,
        }
    }

    /// The fee for a priority and a mempool size: base fee times priority
    /// multiplier times congestion multiplier, rounded down, then raised to
    /// the base fee and cut at the cap.
    pub open spec fn fee(self, priority: FeePriority, mempool_size: usize) -> int {
        let raw = (self.base_fee * self.multiplier(priority) * spec_congestion_numerator(
            mempool_size,
            self.congestion_threshold,
        )) / (100 * spec_congestion_denominator(mempool_size, self.congestion_threshold));
        let raised = if raw < self.base_fee {
            self.base_fee as int
        } else {
            raw
        };
        if raised > self.max_fee {
            self.max_fee as int
        } else {
            raised
        }
    }

    /// A tenth of the expected fee, rounded down.
    pub open spec fn tolerance(self, priority: FeePriority, mempool_size: usize) -> int {
        self.fee(priority, mempool_size) / 10
    }

    /// Whether `fee` lies within a tenth of the expected fee.
    pub open spec fn accepts(self, fee: u64, priority: FeePriority, mempool_size: usize) -> bool {
        let expected = self.fee(priority, mempool_size);
        let tolerance = self.tolerance(priority, mempool_size);
        expected - tolerance <= fee <= expected + tolerance
    }
}

/// Numerator of the congestion multiplier: 1 up to the threshold, then
/// `1 + 2 * (size / threshold - 1)`, at most 3.
pub open spec fn spec_congestion_numerator(mempool_size: usize, threshold: usize) -> int {
    if mempool_size <= threshold {
        1
    } else if mempool_size >= 2 * threshold {
        3
    } else {
        2 * mempool_size - threshold
    }
}

/// Denominator of the congestion multiplier.
pub open spec fn spec_congestion_denominator(mempool_size: usize, threshold: usize) -> int {
    if mempool_size <= threshold || mempool_size >= 2 * threshold {
        1
    } else {
        threshold as int
    }
}

/// The congestion multiplier in hundredths, rounded down.
pub open spec fn spec_congestion_hundredths(mempool_size: usize, threshold: usize) -> int {
    100 * spec_congestion_numerator(mempool_size, threshold) / spec_congestion_denominator(
        mempool_size,
        threshold,
    )
}

/// `a * b / c`, computed without leaving 128 bits.
fn mul_div(a: u128, b: u128, c: u128) -> (out: u128)
    requires
        a < 0x1_0000_0000_0000_0000_0000_0000,
        b <= c,
        0 < c < 0x80_0000_0000_0000_0000,
    ensures
        out == (a * b) / (c as int),
        out <= a,
{
    let k: u128 = 0x1_0000_0000_0000;
    let a1: u128 = a / k;
    let a0: u128 = a % k;
    assert(a1 * b <= 0xffff_ffff_ffff * 0x80_0000_0000_0000_0000) by (nonlinear_arith)
        requires
            a1 <= 0xffff_ffff_ffff,
            b <= 0x80_0000_0000_0000_0000,
    ;
    assert(a0 * b <= 0xffff_ffff_ffff * 0x80_0000_0000_0000_0000) by (nonlinear_arith)
        requires
            a0 <= 0xffff_ffff_ffff,
            b <= 0x80_0000_0000_0000_0000,
    ;
    let t1: u128 = a1 * b;
    let q1: u128 = t1 / c;
    let r1: u128 = t1 % c;
    assert(q1 <= a1) by (nonlinear_arith)
        requires
            t1 == a1 * b,
            b <= c,
            0 < c,
            q1 == t1 / c,
    ;
    assert(r1 * k <= 0x80_0000_0000_0000_0000 * 0x1_0000_0000_0000) by (nonlinear_arith)
        requires
            r1 <= 0x80_0000_0000_0000_0000,
            k == 0x1_0000_0000_0000,
    ;
    let t0: u128 = r1 * k + a0 * b;
    assert(q1 * k <= 0xffff_ffff_ffff * 0x1_0000_0000_0000) by (nonlinear_arith)
        requires
            q1 <= 0xffff_ffff_ffff,
            k == 0x1_0000_0000_0000,
    ;
    let out: u128 = q1 * k + t0 / c;
    proof {
        vstd::arithmetic::div_mod::lemma_fundamental_div_mod(t1 as int, c as int);
        vstd::arithmetic::mul::lemma_mul_is_commutative(c as int, q1 as int);
        assert(t1 == q1 * c + r1);
        assert(a * b == q1 * k * c + t0) by (nonlinear_arith)
            requires
                a == a1 * k + a0,
                t1 == a1 * b,
                t1 == q1 * c + r1,
                t0 == r1 * k + a0 * b,
        ;
        vstd::arithmetic::div_mod::lemma_hoist_over_denominator(
            t0 as int,
            (q1 * k) as int,
            c as nat,
        );
        assert((a * b) / (c as int) <= a) by (nonlinear_arith)
            requires
                b <= c,
                0 < c,
                0 <= a,
        ;
    }
    out
}

impl DynamicFeeConfig {
    /// The configuration with `base_fee`, a cap of ten times that (at most the
    /// largest fee that can be held), a threshold of 20 and the default
    /// multipliers.
    pub fn with_base_fee(base_fee: u64) -> (out: Self)
        ensures
            out@.base_fee == base_fee,
            out@.max_fee == (if base_fee * 10 <= u64::MAX {
                base_fee * 10
            } else {
                u64::MAX as int
            }),
            out@.congestion_threshold == 20,
            out@.priority_multipliers == spec_default_multipliers(),
            out@.coinbase_reward == crate::chain::monetary::INITIAL_BLOCK_REWARD,
    {
        let max_fee = match base_fee.checked_mul(10) {
            Some(cap) => cap,
            None => u64::MAX,
        };
        Self {
            base_fee,
            max_fee,
            congestion_threshold: 20,
            priority_multipliers: Self::default_priority_multipliers(),
            coinbase_reward: crate::chain::monetary::INITIAL_BLOCK_REWARD,
        }
    }

    /// The default multipliers: a half, one, two and three.
    pub fn default_priority_multipliers() -> (out: Vec<PriorityMultiplier>)
        ensures
            out@ == spec_default_multipliers(),
    {
        let mut multipliers: Vec<PriorityMultiplier> = Vec::new();
        multipliers.push(PriorityMultiplier { priority: FeePriority::Low, hundredths: 50 });
        multipliers.push(PriorityMultiplier { priority: FeePriority::Normal, hundredths: 100 });
        multipliers.push(PriorityMultiplier { priority: FeePriority::High, hundredths: 200 });
        multipliers.push(PriorityMultiplier { priority: FeePriority::Urgent, hundredths: 300 });
        assert(multipliers@ =~= spec_default_multipliers());
        multipliers
    }

    /// The multiplier of `priority` in the list, if it has one.
    pub fn find_multiplier(&self, priority: FeePriority) -> (out: Option<u32>)
        ensures
            out == spec_multiplier(self@.priority_multipliers, priority),
    {
        let mut i: usize = 0;
        let ghost all = self.priority_multipliers@;
        assert(all.skip(0) =~= all);
        while i < self.priority_multipliers.len()
            invariant
                i <= self.priority_multipliers@.len(),
                all == self.priority_multipliers@,
                spec_multiplier(all, priority) == spec_multiplier(all.skip(i as int), priority),
            decreases self.priority_multipliers@.len() - i,
        {
            proof {
                assert(all.skip(i as int)[0] == all[i as int]);
                assert(all.skip(i as int).drop_first() =~= all.skip(i + 1));
            }
            if self.priority_multipliers[i].priority == priority {
                return Some(self.priority_multipliers[i].hundredths);
            }
            i += 1;
        }
        None
    }

    /// `Ok` exactly where the configuration is valid, else `Config`.
    pub fn validate(&self) -> (out: Result<(), BlockchainError>)
        ensures
            out is Ok <==> self@.valid(),
            out is Err ==> out->Err_0 is Config,
    {
        if self.base_fee == 0 {
            return Err(BlockchainError::Config(owned("Base fee cannot be zero")));
        }
        if self.max_fee < self.base_fee {
            return Err(
                BlockchainError::Config(owned("Maximum fee cannot be less than base fee")),
            );
        }
        if self.congestion_threshold == 0 {
            return Err(BlockchainError::Config(owned("Congestion threshold cannot be zero")));
        }
        if self.find_multiplier(FeePriority::Low).is_none() || self.find_multiplier(
            FeePriority::Normal,
        ).is_none() || self.find_multiplier(FeePriority::High).is_none() || self.find_multiplier(
            FeePriority::Urgent,
        ).is_none() {
            return Err(BlockchainError::Config(owned("Missing priority multiplier")));
        }
        Ok(())
    }

    /// A copy of the configuration.
    pub fn copy(&self) -> (out: Self)
        ensures
            out@ == self@,
    {
        let mut multipliers: Vec<PriorityMultiplier> = Vec::new();
        let mut i: usize = 0;
        while i < self.priority_multipliers.len()
            invariant
                i <= self.priority_multipliers@.len(),
                multipliers@ == self.priority_multipliers@.take(i as int),
            decreases self.priority_multipliers@.len() - i,
        {
            multipliers.push(
                PriorityMultiplier {
                    priority: self.priority_multipliers[i].priority,
                    hundredths: self.priority_multipliers[i].hundredths,
                },
            );
            assert(multipliers@ =~= self.priority_multipliers@.take(i + 1));
            i += 1;
        }
        assert(self.priority_multipliers@.take(self.priority_multipliers@.len() as int)
            =~= self.priority_multipliers@);
        Self {
            base_fee: self.base_fee,
            max_fee: self.max_fee,
            congestion_threshold: self.congestion_threshold,
            priority_multipliers: multipliers,
            coinbase_reward: self.coinbase_reward,
        }
    }
}

impl Default for DynamicFeeConfig {
    fn default() -> (out: Self)
        ensures
            out@.base_fee == 1,
            out@.max_fee == 10,
            out@.congestion_threshold == 20,
            out@.priority_multipliers == spec_default_multipliers(),
            out@.coinbase_reward == crate::chain::monetary::INITIAL_BLOCK_REWARD,
    {
        Self::with_base_fee(1)
    }
}

/// One priority with the fee estimated for it.
pub struct EstimatedFee {
    pub priority: FeePriority,
    pub fee: u64,
}

/// Figures of the fee market for display.
pub struct FeeStatistics {
    pub base_fee: u64,
    pub max_fee: u64,
    /// The congestion multiplier in hundredths, rounded down.
    pub current_congestion_multiplier: u64,
    pub mempool_size: usize,
    pub congestion_threshold: usize,
    /// The fees for Low, Normal, High and Urgent, in this order.
    pub estimated_fees: Vec<EstimatedFee>,
}

impl FeeStatistics {
    /// Whether the figures are those of a configuration at a mempool size:
    /// base fee, cap, threshold and mempool size as they are, the congestion
    /// multiplier in hundredths, and the fee of each priority from Low to
    /// Urgent.
    pub open spec fn describes(self, config: ConfigModel, mempool_size: usize) -> bool {
        &&& self.base_fee == config.base_fee
        &&& self.max_fee == config.max_fee
        &&& self.mempool_size == mempool_size
        &&& self.congestion_threshold == config.congestion_threshold
        &&& self.current_congestion_multiplier == spec_congestion_hundredths(
            mempool_size,
            config.congestion_threshold,
        )
        &&& self.estimated_fees@.len() == 4
        &&& self.estimated_fees@[0].priority == FeePriority::Low
        &&& self.estimated_fees@[0].fee == config.fee(FeePriority::Low, mempool_size)
        &&& self.estimated_fees@[1].priority == FeePriority::Normal
        &&& self.estimated_fees@[1].fee == config.fee(FeePriority::Normal, mempool_size)
        &&& self.estimated_fees@[2].priority == FeePriority::High
        &&& self.estimated_fees@[2].fee == config.fee(FeePriority::High, mempool_size)
        &&& self.estimated_fees@[3].priority == FeePriority::Urgent
        &&& self.estimated_fees@[3].fee == config.fee(FeePriority::Urgent, mempool_size)
    }
}

/// A calculator for the dynamic fee. Its configuration is always valid.
pub struct DynamicFeeCalculator {
    config: DynamicFeeConfig,
}

impl View for DynamicFeeCalculator {
    type V = ConfigModel;

    closed spec fn view(&self) -> ConfigModel {
        self.config@
    }
}

impl DynamicFeeCalculator {
    #[verifier::type_invariant]
    closed spec fn wf(&self) -> bool {
        self.config@.valid()
    }

    /// A calculator with `config`; `Config` where the configuration is not
    /// valid.
    pub fn new(config: DynamicFeeConfig) -> (out: Result<Self, BlockchainError>)
        ensures
            out is Ok <==> config@.valid(),
            out is Ok ==> out->Ok_0@ == config@,
            out is Err ==> out->Err_0 is Config,
    {
        match config.validate() {
            Ok(()) => Ok(Self { config }),
            Err(e) => Err(e),
        }
    }

    /// The fee for `priority` at `mempool_size`; it lies between the base fee
    /// and the cap.
    pub fn calculate_fee(&self, priority: FeePriority, mempool_size: usize) -> (fee: u64)
        ensures
            fee == self@.fee(priority, mempool_size),
            self@.base_fee <= fee <= self@.max_fee,
            self@.valid(),
    {
        proof {
            use_type_invariant(self);
        }
        let multiplier: u128 = match self.config.find_multiplier(priority) {
            Some(hundredths) => hundredths as u128,
            None => 100,
        };
        let base: u128 = self.config.base_fee as u128;
        assert(base * multiplier <= 0xffff_ffff_ffff_ffff * 0xffff_ffff) by (nonlinear_arith)
            requires
                base <= 0xffff_ffff_ffff_ffff,
                multiplier <= 0xffff_ffff,
        ;
        let scaled: u128 = base * multiplier;
        let threshold = self.config.congestion_threshold;
        let raw: u128 = if mempool_size <= threshold {
            scaled / 100
        } else if mempool_size - threshold >= threshold {
            assert(scaled * 3 / 100 == (base * multiplier * 3) / 100) by (nonlinear_arith)
                requires
                    scaled == base * multiplier,
            ;
            scaled * 3 / 100
        } else {
            let numerator: u128 = 2 * (mempool_size as u128) - (threshold as u128);
            let denominator: u128 = 100 * (threshold as u128);
            let value = mul_div(scaled, numerator, denominator);
            assert((scaled * numerator) / (denominator as int) == (base * multiplier * (2
                * mempool_size - threshold)) / (100 * threshold)) by (nonlinear_arith)
                requires
                    scaled == base * multiplier,
                    numerator == 2 * mempool_size - threshold,
                    denominator == 100 * threshold,
            ;
            value
        };
        let raised: u128 = if raw < base {
            base
        } else {
            raw
        };
        if raised > self.config.max_fee as u128 {
            self.config.max_fee
        } else {
            raised as u64
        }
    }

    /// The congestion multiplier in hundredths, rounded down: 100 up to the
    /// threshold, 300 from twice the threshold on.
    pub fn calculate_congestion_multiplier(&self, mempool_size: usize) -> (hundredths: u64)
        ensures
            hundredths == spec_congestion_hundredths(mempool_size, self@.congestion_threshold),
            100 <= hundredths <= 300,
    {
        proof {
            use_type_invariant(self);
        }
        let threshold = self.config.congestion_threshold;
        if mempool_size <= threshold {
            100
        } else if mempool_size - threshold >= threshold {
            300
        } else {
            let numerator: u128 = 100 * (2 * (mempool_size as u128) - (threshold as u128));
            let value = numerator / (threshold as u128);
            assert(100 <= value <= 300) by (nonlinear_arith)
                requires
                    value == numerator / (threshold as u128),
                    numerator == 100 * (2 * mempool_size - threshold),
                    threshold < mempool_size,
                    mempool_size < 2 * threshold,
            ;
            value as u64
        }
    }

    /// `Ok` exactly where `fee` lies within a tenth of the expected fee, else
    /// `Transaction`.
    pub fn validate_fee(&self, fee: u64, priority: FeePriority, mempool_size: usize) -> (out:
        Result<(), BlockchainError>)
        ensures
            out is Ok <==> self@.accepts(fee, priority, mempool_size),
            out is Err ==> out->Err_0 is Transaction,
    {
        let expected_fee = self.calculate_fee(priority, mempool_size);
        let tolerance = expected_fee / 10;
        let min_acceptable = expected_fee - tolerance;
        let max_acceptable = expected_fee.saturating_add(tolerance);
        if fee < min_acceptable || fee > max_acceptable {
            return Err(BlockchainError::Transaction(owned("Invalid fee: outside the tolerance")));
        }
        Ok(())
    }

    /// The block reward of the configuration plus the collected fees.
    pub fn calculate_coinbase_reward(&self, collected_fees: u64) -> (reward: u64)
        requires
            self@.coinbase_reward + collected_fees <= u64::MAX,
        ensures
            reward == self@.coinbase_reward + collected_fees,
    {
        self.config.coinbase_reward + collected_fees
    }

    /// The configuration.
    pub fn get_config(&self) -> (config: &DynamicFeeConfig)
        ensures
            config@ == self@,
            config@.valid(),
    {
        proof {
            use_type_invariant(self);
        }
        &self.config
    }

    /// Replaces the configuration where the new one is valid; else `Config`,
    /// and the calculator stays as it is.
    pub fn update_config(&mut self, new_config: DynamicFeeConfig) -> (out: Result<
        (),
        BlockchainError,
    >)
        ensures
            out is Ok <==> new_config@.valid(),
            out is Ok ==> final(self)@ == new_config@,
            out is Err ==> final(self)@ == old(self)@ && out->Err_0 is Config,
    {
        match DynamicFeeCalculator::new(new_config) {
            Ok(next) => {
                *self = next;
                Ok(())
            },
            Err(e) => Err(e),
        }
    }

    /// The figures of the fee market at `mempool_size`.
    pub fn get_fee_statistics(&self, mempool_size: usize) -> (stats: FeeStatistics)
        ensures
            stats.describes(self@, mempool_size),
    {
        let mut fees: Vec<EstimatedFee> = Vec::new();
        fees.push(
            EstimatedFee {
                priority: FeePriority::Low,
                fee: self.calculate_fee(FeePriority::Low, mempool_size),
            },
        );
        fees.push(
            EstimatedFee {
                priority: FeePriority::Normal,
                fee: self.calculate_fee(FeePriority::Normal, mempool_size),
            },
        );
        fees.push(
            EstimatedFee {
                priority: FeePriority::High,
                fee: self.calculate_fee(FeePriority::High, mempool_size),
            },
        );
        fees.push(
            EstimatedFee {
                priority: FeePriority::Urgent,
                fee: self.calculate_fee(FeePriority::Urgent, mempool_size),
            },
        );
        FeeStatistics {
            base_fee: self.config.base_fee,
            max_fee: self.config.max_fee,
            current_congestion_multiplier: self.calculate_congestion_multiplier(mempool_size),
            mempool_size,
            congestion_threshold: self.config.congestion_threshold,
            estimated_fees: fees,
        }
    }
}

} // verus!
