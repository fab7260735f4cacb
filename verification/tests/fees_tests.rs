use architect_chain::chain::fees::calculator::{FeeMode, LegacyFeeCalculator, UnifiedFeeCalculator};
use architect_chain::chain::fees::dynamic::{
    DynamicFeeCalculator, DynamicFeeConfig, EstimatedFee, FeePriority, FeeStatistics, PriorityMultiplier,
};
use architect_chain::chain::fees::fixed::FixedFeeCalculator;
use architect_chain::chain::fees::FeeCalculator;
use architect_chain::chain::monetary::INITIAL_BLOCK_REWARD;
use architect_chain::chain::Transaction;
use architect_chain::error::BlockchainError;

fn create_test_config() -> DynamicFeeConfig {
    DynamicFeeConfig {
        base_fee: 1,
        max_fee: 10,
        congestion_threshold: 10,
        priority_multipliers: DynamicFeeConfig::default_priority_multipliers(),
        coinbase_reward: INITIAL_BLOCK_REWARD,
    }
}

#[test]
fn test_fixed_mode_calculator() {
    let calculator = UnifiedFeeCalculator::new(FeeMode::Fixed { amount: 2 }).unwrap();
    assert!(calculator.is_fixed_enabled());
    assert!(!calculator.is_dynamic_enabled());
    assert_eq!(calculator.calculate_fee(100, None, 0), 2);
    assert_eq!(calculator.calculate_fee(1000, Some(FeePriority::High), 0), 2);
}

#[test]
fn test_dynamic_mode_calculator() {
    let config = DynamicFeeConfig::default();
    let calculator = UnifiedFeeCalculator::new(FeeMode::Dynamic { config }).unwrap();
    assert!(!calculator.is_fixed_enabled());
    assert!(calculator.is_dynamic_enabled());
    let fee_normal = calculator.calculate_fee_with_mempool_size(100, Some(FeePriority::Normal), 5);
    let fee_high = calculator.calculate_fee_with_mempool_size(100, Some(FeePriority::High), 5);
    assert!(fee_high >= fee_normal);
}

#[test]
fn test_mode_switching() {
    let mut calculator = UnifiedFeeCalculator::new(FeeMode::Fixed { amount: 1 }).unwrap();
    assert!(calculator.is_fixed_enabled());
    let dynamic_config = DynamicFeeConfig::default();
    calculator
        .switch_mode(FeeMode::Dynamic {
            config: dynamic_config,
        })
        .unwrap();
    assert!(calculator.is_dynamic_enabled());
    calculator
        .switch_mode(FeeMode::Fixed { amount: 3 })
        .unwrap();
    assert!(calculator.is_fixed_enabled());
    assert_eq!(calculator.calculate_fee(100, None, 0), 3);
}

#[test]
fn test_fee_estimation() {
    let config = DynamicFeeConfig::default();
    let calculator = UnifiedFeeCalculator::new(FeeMode::Dynamic { config }).unwrap();
    let estimate_low = calculator.estimate_fee(FeePriority::Low, 0);
    let estimate_high = calculator.estimate_fee(FeePriority::High, 0);
    assert!(estimate_high >= estimate_low);
}

#[test]
fn calculator_test_coinbase_reward_calculation() {
    let calculator = UnifiedFeeCalculator::new(FeeMode::Fixed { amount: 1 }).unwrap();
    let reward = calculator.calculate_coinbase_reward(5);
    assert_eq!(reward, INITIAL_BLOCK_REWARD + 5);
}

#[test]
fn calculator_test_config_summary() {
    let fixed_calculator = UnifiedFeeCalculator::new(FeeMode::Fixed { amount: 2 }).unwrap();
    let summary = fixed_calculator.get_config_summary();
    assert!(summary.contains("Fixed fee: 2 coins"));
    let dynamic_calculator = UnifiedFeeCalculator::new(FeeMode::Dynamic {
        config: DynamicFeeConfig::default(),
    })
    .unwrap();
    let summary = dynamic_calculator.get_config_summary();
    assert!(summary.contains("Dynamic fees"));
    assert_eq!(
        summary,
        "Dynamic fees: base 1 coins, max 10 coins, threshold 20 transactions"
    );
}

#[test]
fn calculator_test_legacy_compatibility() {
    assert_eq!(LegacyFeeCalculator::calculate_fee(100, 2).unwrap(), 200);
    assert!(LegacyFeeCalculator::validate_fee_rate(10).is_ok());
    assert_eq!(
        LegacyFeeCalculator::calculate_coinbase_reward(5),
        INITIAL_BLOCK_REWARD + 5
    );
}

#[test]
fn test_dynamic_fee_calculation_no_congestion() {
    let calculator = DynamicFeeCalculator::new(create_test_config()).unwrap();
    assert_eq!(calculator.calculate_fee(FeePriority::Low, 5), 1);
    assert_eq!(calculator.calculate_fee(FeePriority::Normal, 5), 1);
    assert_eq!(calculator.calculate_fee(FeePriority::High, 5), 2);
    assert_eq!(calculator.calculate_fee(FeePriority::Urgent, 5), 3);
}

#[test]
fn test_dynamic_fee_calculation_with_congestion() {
    let calculator = DynamicFeeCalculator::new(create_test_config()).unwrap();
    let fee_no_congestion = calculator.calculate_fee(FeePriority::Normal, 5);
    let fee_with_congestion = calculator.calculate_fee(FeePriority::Normal, 30);
    assert!(fee_with_congestion > fee_no_congestion);
}

#[test]
fn test_fee_caps() {
    let calculator = DynamicFeeCalculator::new(create_test_config()).unwrap();
    let fee = calculator.calculate_fee(FeePriority::Urgent, 1000);
    assert!(fee <= 10);
    let fee = calculator.calculate_fee(FeePriority::Low, 0);
    assert!(fee >= 1);
}

#[test]
fn test_congestion_multiplier() {
    let calculator = DynamicFeeCalculator::new(create_test_config()).unwrap();
    // The multiplier is held in hundredths.
    assert_eq!(calculator.calculate_congestion_multiplier(5), 100);
    let multiplier = calculator.calculate_congestion_multiplier(20);
    assert!(multiplier > 100 && multiplier <= 300);
    let multiplier = calculator.calculate_congestion_multiplier(1000);
    assert_eq!(multiplier, 300);
}

#[test]
fn test_config_validation() {
    assert!(create_test_config().validate().is_ok());
    let mut invalid_config = create_test_config();
    invalid_config.base_fee = 0;
    assert!(invalid_config.validate().is_err());
    let mut invalid_config = create_test_config();
    invalid_config.max_fee = 0;
    assert!(invalid_config.validate().is_err());
}

#[test]
fn dynamic_test_fee_validation() {
    let calculator = DynamicFeeCalculator::new(create_test_config()).unwrap();
    let expected_fee = calculator.calculate_fee(FeePriority::Normal, 10);
    assert!(calculator
        .validate_fee(expected_fee, FeePriority::Normal, 10)
        .is_ok());
    let tolerance = expected_fee / 20;
    assert!(calculator
        .validate_fee(expected_fee + tolerance, FeePriority::Normal, 10)
        .is_ok());
    let large_deviation = expected_fee * 2;
    assert!(calculator
        .validate_fee(large_deviation, FeePriority::Normal, 10)
        .is_err());
}

#[test]
fn test_priority_parsing() {
    assert_eq!("low".parse::<FeePriority>().unwrap(), FeePriority::Low);
    assert_eq!(
        "normal".parse::<FeePriority>().unwrap(),
        FeePriority::Normal
    );
    assert_eq!("high".parse::<FeePriority>().unwrap(), FeePriority::High);
    assert_eq!(
        "urgent".parse::<FeePriority>().unwrap(),
        FeePriority::Urgent
    );
    assert!("invalid".parse::<FeePriority>().is_err());
}

#[test]
fn test_fee_statistics() {
    let calculator = DynamicFeeCalculator::new(create_test_config()).unwrap();
    let stats = calculator.get_fee_statistics(15);
    assert_eq!(stats.base_fee, 1);
    assert_eq!(stats.max_fee, 10);
    assert_eq!(stats.mempool_size, 15);
    assert!(stats.current_congestion_multiplier > 100);
    assert_eq!(stats.estimated_fees.len(), 4);
}

#[test]
fn test_fixed_fee_calculation() {
    let calculator = FixedFeeCalculator::new(2);
    assert_eq!(calculator.calculate_fee(100, None), 2);
    assert_eq!(calculator.calculate_fee(1000, None), 2);
}

#[test]
fn fixed_test_fee_validation() {
    let calculator = FixedFeeCalculator::new(1);
    assert!(calculator.validate_fee(1).is_ok());
    assert!(calculator.validate_fee(2).is_err());
}

#[test]
fn test_coinbase_reward() {
    let calculator = FixedFeeCalculator::new(1);
    let reward = calculator.calculate_coinbase_reward(5);
    assert_eq!(reward, INITIAL_BLOCK_REWARD + 5);
}

#[test]
fn test_fee_amount_update() {
    let mut calculator = FixedFeeCalculator::new(1);
    assert_eq!(calculator.get_fee_amount(), 1);
    calculator.set_fee_amount(3);
    assert_eq!(calculator.get_fee_amount(), 3);
}

#[test]
fn test_global_fee_calculator_fixed_mode() {
    let mut fees = FeeCalculator::new();
    fees.initialize(FeeMode::Fixed { amount: 2 }).unwrap();
    assert!(!fees.is_dynamic_enabled());
    assert_eq!(fees.calculate_fee(100, None, 0), 2);
    assert_eq!(fees.estimate_fee(FeePriority::High, 0), 2);
}

#[test]
fn test_global_fee_calculator_dynamic_mode() {
    let mut fees = FeeCalculator::new();
    let config = DynamicFeeConfig::default();
    fees.initialize(FeeMode::Dynamic { config }).unwrap();
    assert!(fees.is_dynamic_enabled());
    let fee_normal = fees.estimate_fee(FeePriority::Normal, 0);
    let fee_high = fees.estimate_fee(FeePriority::High, 0);
    assert!(fee_high >= fee_normal);
}

#[test]
fn test_fee_mode_switching() {
    let mut fees = FeeCalculator::new();
    fees.initialize(FeeMode::Fixed { amount: 1 }).unwrap();
    assert!(!fees.is_dynamic_enabled());
    let config = DynamicFeeConfig::default();
    fees.switch_fee_mode(FeeMode::Dynamic { config }).unwrap();
    assert!(fees.is_dynamic_enabled());
    fees.switch_fee_mode(FeeMode::Fixed { amount: 3 }).unwrap();
    assert!(!fees.is_dynamic_enabled());
    assert_eq!(fees.calculate_fee(100, None, 0), 3);
}

#[test]
fn mod_test_coinbase_reward_calculation() {
    let mut fees = FeeCalculator::new();
    fees.initialize(FeeMode::Fixed { amount: 1 }).unwrap();
    let reward = fees.calculate_coinbase_reward(5);
    assert_eq!(reward, INITIAL_BLOCK_REWARD + 5);
}

#[test]
fn mod_test_fee_validation() {
    let mut fees = FeeCalculator::new();
    fees.initialize(FeeMode::Fixed { amount: 2 }).unwrap();
    assert!(fees.validate_fee(2, None, 0).is_ok());
    assert!(fees.validate_fee(1, None, 0).is_err());
}

#[test]
fn mod_test_legacy_compatibility() {
    assert_eq!(FeeCalculator::calculate_legacy_fee(100, 2).unwrap(), 200);
    assert!(FeeCalculator::validate_fee_rate(10).is_ok());
    assert_eq!(FeeCalculator::estimate_transaction_size(2, 2), 158);
}

#[test]
fn mod_test_config_summary() {
    let mut fees = FeeCalculator::new();
    fees.initialize(FeeMode::Fixed { amount: 5 }).unwrap();
    let summary = fees.get_config_summary();
    assert!(summary.contains("Fixed fee: 5 coins"));
}

#[test]
fn test_fee_statistics_dynamic_mode() {
    let mut fees = FeeCalculator::new();
    let config = DynamicFeeConfig::default();
    fees.initialize(FeeMode::Dynamic { config }).unwrap();
    let stats = fees.get_fee_statistics(0);
    assert!(stats.is_some());
    let stats = stats.unwrap();
    assert_eq!(stats.base_fee, 1);
    assert!(stats
        .estimated_fees
        .iter()
        .any(|e| e.priority == FeePriority::Normal));
}

#[test]
fn test_fee_statistics_fixed_mode() {
    let mut fees = FeeCalculator::new();
    fees.initialize(FeeMode::Fixed { amount: 1 }).unwrap();
    let stats = fees.get_fee_statistics(0);
    assert!(stats.is_none());
}

#[test]
fn dynamic_fee_is_exact_between_threshold_and_twice_the_threshold() {
    let config = DynamicFeeConfig {
        base_fee: 1000,
        max_fee: 10_000,
        congestion_threshold: 20,
        priority_multipliers: DynamicFeeConfig::default_priority_multipliers(),
        coinbase_reward: INITIAL_BLOCK_REWARD,
    };
    let calculator = DynamicFeeCalculator::new(config).unwrap();
    // at the threshold the multiplier is one
    assert_eq!(calculator.calculate_fee(FeePriority::Normal, 20), 1000);
    // 21 of 20: 1 + 2 * (21/20 - 1) = 1.1
    assert_eq!(calculator.calculate_fee(FeePriority::Normal, 21), 1100);
    assert_eq!(calculator.calculate_congestion_multiplier(21), 110);
    // 30 of 20: 1 + 2 * (1.5 - 1) = 2
    assert_eq!(calculator.calculate_fee(FeePriority::Normal, 30), 2000);
    assert_eq!(calculator.calculate_fee(FeePriority::High, 30), 4000);
    // from twice the threshold on the multiplier is three
    assert_eq!(calculator.calculate_fee(FeePriority::Normal, 40), 3000);
    assert_eq!(calculator.calculate_fee(FeePriority::Normal, usize::MAX), 3000);
    // raised to the base fee and cut at the cap
    assert_eq!(calculator.calculate_fee(FeePriority::Low, 0), 1000);
    assert_eq!(calculator.calculate_fee(FeePriority::Urgent, 1000), 9000);
    assert_eq!(calculator.calculate_fee(FeePriority::Urgent, 39), 8700);
}

#[test]
fn dynamic_fee_survives_the_largest_numbers() {
    let config = DynamicFeeConfig {
        base_fee: u64::MAX / 2,
        max_fee: u64::MAX,
        congestion_threshold: usize::MAX / 2,
        priority_multipliers: vec![
            PriorityMultiplier { priority: FeePriority::Low, hundredths: 1 },
            PriorityMultiplier { priority: FeePriority::Normal, hundredths: 100 },
            PriorityMultiplier { priority: FeePriority::High, hundredths: u32::MAX },
            PriorityMultiplier { priority: FeePriority::Urgent, hundredths: 300 },
        ],
        coinbase_reward: INITIAL_BLOCK_REWARD,
    };
    let calculator = DynamicFeeCalculator::new(config).unwrap();
    assert_eq!(calculator.calculate_fee(FeePriority::High, usize::MAX - 2), u64::MAX);
    assert_eq!(calculator.calculate_fee(FeePriority::Low, usize::MAX / 2 + 1), u64::MAX / 2);
}

#[test]
fn fee_validation_accepts_a_tenth_either_way() {
    let config = DynamicFeeConfig::with_base_fee(100);
    let calculator = DynamicFeeCalculator::new(config).unwrap();
    assert_eq!(calculator.calculate_fee(FeePriority::Normal, 0), 100);
    assert!(calculator.validate_fee(90, FeePriority::Normal, 0).is_ok());
    assert!(calculator.validate_fee(110, FeePriority::Normal, 0).is_ok());
    assert!(matches!(
        calculator.validate_fee(89, FeePriority::Normal, 0),
        Err(BlockchainError::Transaction(_))
    ));
    assert!(calculator.validate_fee(111, FeePriority::Normal, 0).is_err());
}

#[test]
fn config_validation_names_each_fault() {
    let mut config = create_test_config();
    config.congestion_threshold = 0;
    assert!(matches!(config.validate(), Err(BlockchainError::Config(_))));
    let mut config = create_test_config();
    config.priority_multipliers.remove(3);
    assert!(matches!(config.validate(), Err(BlockchainError::Config(_))));
    assert!(matches!(
        DynamicFeeCalculator::new(config),
        Err(BlockchainError::Config(_))
    ));
    let with_base = DynamicFeeConfig::with_base_fee(7);
    assert_eq!(with_base.max_fee, 70);
    assert_eq!(with_base.congestion_threshold, 20);
    assert_eq!(DynamicFeeConfig::with_base_fee(u64::MAX).max_fee, u64::MAX);
}

#[test]
fn mode_updates_only_fit_their_mode() {
    let mut fixed = UnifiedFeeCalculator::new(FeeMode::Fixed { amount: 1 }).unwrap();
    assert!(matches!(
        fixed.update_dynamic_config(DynamicFeeConfig::default()),
        Err(BlockchainError::Config(_))
    ));
    fixed.update_fixed_fee(9).unwrap();
    assert_eq!(fixed.calculate_fee(1, None, 0), 9);
    assert_eq!(fixed.estimate_fee(FeePriority::Low, 0), 9);

    let mut dynamic = UnifiedFeeCalculator::new(FeeMode::Dynamic {
        config: DynamicFeeConfig::default(),
    })
    .unwrap();
    assert!(matches!(
        dynamic.update_fixed_fee(9),
        Err(BlockchainError::Config(_))
    ));
    dynamic
        .update_dynamic_config(DynamicFeeConfig::with_base_fee(50))
        .unwrap();
    assert_eq!(dynamic.calculate_fee(1, None, 0), 50);
    let mut bad = DynamicFeeConfig::default();
    bad.base_fee = 0;
    assert!(UnifiedFeeCalculator::new(FeeMode::Dynamic { config: bad }).is_err());
}

#[test]
fn legacy_rules_have_their_bounds() {
    assert!(matches!(
        LegacyFeeCalculator::calculate_fee(0, 2),
        Err(BlockchainError::Transaction(_))
    ));
    assert!(LegacyFeeCalculator::validate_fee_rate(0).is_err());
    assert!(LegacyFeeCalculator::validate_fee_rate(1).is_ok());
    assert!(LegacyFeeCalculator::validate_fee_rate(1000).is_ok());
    assert!(LegacyFeeCalculator::validate_fee_rate(1001).is_err());
    assert!(FeeCalculator::validate_fee_amount(200, 100).is_ok());
    assert!(FeeCalculator::validate_fee_amount(99, 100).is_err());
    assert!(FeeCalculator::validate_fee_amount(1, 0).is_err());
    assert_eq!(FeeCalculator::calculate_fee_rate(250, 100).unwrap(), 2);
    assert!(FeeCalculator::calculate_fee_rate(250, 0).is_err());
    assert_eq!(FeeCalculator::estimate_transaction_size(1, 2), 108);
    assert_eq!(FeeCalculator::estimate_transaction_size(usize::MAX, 2), usize::MAX);
    assert_eq!(FeeCalculator::COINBASE_REWARD, INITIAL_BLOCK_REWARD);
}

#[test]
fn total_fees_leave_coinbases_out() {
    let address = "1A1zP1eP5QGefi2DMPTfTL5SLmv7DivfNa";
    let coinbase = Transaction::new_coinbase_tx(address).unwrap();
    let mut paying = Transaction::new_coinbase_tx(address).unwrap();
    paying.set_fee(7);
    // still a coinbase by its shape, so its fee does not count
    assert_eq!(FeeCalculator::calculate_total_fees(&[coinbase, paying]), 0);
}

#[test]
fn priority_names_round_trip() {
    for priority in [
        FeePriority::Low,
        FeePriority::Normal,
        FeePriority::High,
        FeePriority::Urgent,
    ] {
        assert_eq!(priority.to_string().parse::<FeePriority>().unwrap(), priority);
    }
    assert_eq!("URGENT".parse::<FeePriority>().unwrap(), FeePriority::Urgent);
    assert_eq!(FeePriority::default(), FeePriority::Normal);
    assert!(matches!(
        FeePriority::parse("soon"),
        Err(BlockchainError::Config(_))
    ));
}

#[test]
fn fee_statistics_are_written_line_by_line() {
    let stats = FeeStatistics {
        base_fee: 2,
        max_fee: 20,
        current_congestion_multiplier: 205,
        mempool_size: 30,
        congestion_threshold: 20,
        estimated_fees: vec![
            EstimatedFee { priority: FeePriority::Low, fee: 2 },
            EstimatedFee { priority: FeePriority::Urgent, fee: 20 },
        ],
    };
    assert_eq!(
        stats.to_string(),
        "Fee Statistics:\n  Base Fee: 2 coins\n  Max Fee: 20 coins\n  Mempool Size: 30 transactions\n  \
         Congestion Threshold: 20 transactions\n  Congestion Multiplier: 2.05x\n  Estimated Fees:\n    \
         low: 2 coins\n    urgent: 20 coins\n"
    );
    let calm = FeeStatistics {
        base_fee: 0,
        max_fee: 0,
        current_congestion_multiplier: 100,
        mempool_size: 0,
        congestion_threshold: 0,
        estimated_fees: vec![],
    };
    assert!(calm.to_string().contains("Congestion Multiplier: 1.00x\n"));
    assert!(calm.to_string().ends_with("Estimated Fees:\n"));
}
