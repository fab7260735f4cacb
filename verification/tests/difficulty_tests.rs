use architect_chain::chain::difficulty::{
    DifficultyAdjustment, INITIAL_DIFFICULTY, MAX_DIFFICULTY, MIN_DIFFICULTY,
};
use architect_chain::chain::{Block, Transaction};
use architect_chain::error::BlockchainError;

fn create_test_block(height: usize, timestamp: i64, difficulty: u32) -> Block {
    let dummy_tx = Transaction::new_coinbase_tx("1A1zP1eP5QGefi2DMPTfTL5SLmv7DivfNa")
        .expect("Failed to create test transaction");
    Block::new_test_block(
        timestamp,
        "test_prev_hash".to_string(),
        &[dummy_tx],
        height,
        difficulty,
    )
    .expect("Failed to create test block")
}

fn ten_blocks(step: i64, difficulty: u32) -> Vec<Block> {
    (0..10)
        .map(|i| create_test_block(i as usize, i * step, difficulty))
        .collect()
}

#[test]
fn test_initial_difficulty() {
    let result = DifficultyAdjustment::calculate_next_difficulty(&[], 0).unwrap();
    assert_eq!(result, INITIAL_DIFFICULTY);
}

#[test]
fn test_difficulty_adjustment_fast_blocks() {
    let blocks = vec![
        create_test_block(0, 0, 4),
        create_test_block(1, 10000, 4),
        create_test_block(2, 20000, 4),
        create_test_block(3, 30000, 4),
        create_test_block(4, 40000, 4),
        create_test_block(5, 50000, 4),
        create_test_block(6, 60000, 4),
        create_test_block(7, 70000, 4),
        create_test_block(8, 80000, 4),
        create_test_block(9, 90000, 4),
    ];
    let result = DifficultyAdjustment::calculate_next_difficulty(&blocks, 10).unwrap();
    assert_eq!(result, 6);
}

#[test]
fn test_difficulty_adjustment_slow_blocks() {
    let blocks = vec![
        create_test_block(0, 0, 4),
        create_test_block(1, 200_000, 4),
        create_test_block(2, 400_000, 4),
        create_test_block(3, 600_000, 4),
        create_test_block(4, 800_000, 4),
        create_test_block(5, 1_000_000, 4),
        create_test_block(6, 1_200_000, 4),
        create_test_block(7, 1_400_000, 4),
        create_test_block(8, 1_600_000, 4),
        create_test_block(9, 1_800_000, 4),
    ];
    let result = DifficultyAdjustment::calculate_next_difficulty(&blocks, 10).unwrap();
    assert_eq!(result, 4);
}

#[test]
fn test_difficulty_bounds() {
    let blocks = vec![
        create_test_block(0, 0, MIN_DIFFICULTY),
        create_test_block(1, 500_000, MIN_DIFFICULTY),
        create_test_block(2, 1_000_000, MIN_DIFFICULTY),
        create_test_block(3, 1_500_000, MIN_DIFFICULTY),
        create_test_block(4, 2_000_000, MIN_DIFFICULTY),
        create_test_block(5, 2_500_000, MIN_DIFFICULTY),
        create_test_block(6, 3_000_000, MIN_DIFFICULTY),
        create_test_block(7, 3_500_000, MIN_DIFFICULTY),
        create_test_block(8, 4_000_000, MIN_DIFFICULTY),
        create_test_block(9, 4_500_000, MIN_DIFFICULTY),
    ];
    let result = DifficultyAdjustment::calculate_next_difficulty(&blocks, 10).unwrap();
    assert_eq!(result, MIN_DIFFICULTY);

    let blocks = vec![
        create_test_block(0, 0, MAX_DIFFICULTY),
        create_test_block(1, 1000, MAX_DIFFICULTY),
        create_test_block(2, 2000, MAX_DIFFICULTY),
        create_test_block(3, 3000, MAX_DIFFICULTY),
        create_test_block(4, 4000, MAX_DIFFICULTY),
        create_test_block(5, 5000, MAX_DIFFICULTY),
        create_test_block(6, 6000, MAX_DIFFICULTY),
        create_test_block(7, 7000, MAX_DIFFICULTY),
        create_test_block(8, 8000, MAX_DIFFICULTY),
        create_test_block(9, 9000, MAX_DIFFICULTY),
    ];
    let result = DifficultyAdjustment::calculate_next_difficulty(&blocks, 10).unwrap();
    assert_eq!(result, MAX_DIFFICULTY);
}

#[test]
fn adjust_difficulty_follows_the_table() {
    let target = 1_200_000;
    // below a half: two harder
    assert_eq!(DifficultyAdjustment::adjust_difficulty(5, 599_999, target), 7);
    // exactly a half: one harder
    assert_eq!(DifficultyAdjustment::adjust_difficulty(5, 600_000, target), 6);
    // just below three quarters: one harder
    assert_eq!(DifficultyAdjustment::adjust_difficulty(5, 899_999, target), 6);
    // three quarters up to one and a half: unchanged
    assert_eq!(DifficultyAdjustment::adjust_difficulty(5, 900_000, target), 5);
    assert_eq!(DifficultyAdjustment::adjust_difficulty(5, 1_800_000, target), 5);
    // above one and a half up to two: one easier
    assert_eq!(DifficultyAdjustment::adjust_difficulty(5, 1_800_001, target), 4);
    assert_eq!(DifficultyAdjustment::adjust_difficulty(5, 2_400_000, target), 4);
    // above two: two easier
    assert_eq!(DifficultyAdjustment::adjust_difficulty(5, 2_400_001, target), 3);
    // clamped at both ends, and a decrease stops at zero before the clamp
    assert_eq!(DifficultyAdjustment::adjust_difficulty(12, 1, target), 12);
    assert_eq!(DifficultyAdjustment::adjust_difficulty(1, 10_000_000, target), 1);
    assert_eq!(DifficultyAdjustment::adjust_difficulty(0, 10_000_000, target), 1);
    assert_eq!(DifficultyAdjustment::adjust_difficulty(u32::MAX, 1, target), 12);
}

#[test]
fn difficulty_is_carried_between_retargets() {
    let blocks = ten_blocks(1000, 7);
    for height in 11..20 {
        assert_eq!(
            DifficultyAdjustment::calculate_next_difficulty(&blocks, height).unwrap(),
            7
        );
    }
    assert_eq!(
        DifficultyAdjustment::calculate_next_difficulty(&[], 13).unwrap(),
        INITIAL_DIFFICULTY
    );
    // below the first retarget the parent's difficulty is carried as well
    for height in 0..10 {
        assert_eq!(
            DifficultyAdjustment::calculate_next_difficulty(&blocks, height).unwrap(),
            7
        );
        assert_eq!(
            DifficultyAdjustment::calculate_next_difficulty(&[], height).unwrap(),
            INITIAL_DIFFICULTY
        );
    }
    // timestamps do not matter off a retarget
    let slow = ten_blocks(1_000_000, 9);
    assert_eq!(DifficultyAdjustment::calculate_next_difficulty(&slow, 5).unwrap(), 9);
    assert_eq!(DifficultyAdjustment::calculate_next_difficulty(&slow, 15).unwrap(), 9);
}

#[test]
fn retarget_needs_ten_blocks_in_order() {
    let nine: Vec<Block> = ten_blocks(1000, 4).into_iter().take(9).collect();
    assert!(matches!(
        DifficultyAdjustment::calculate_next_difficulty(&nine, 10),
        Err(BlockchainError::InvalidBlock(_))
    ));
    let still = ten_blocks(0, 4);
    assert!(matches!(
        DifficultyAdjustment::calculate_next_difficulty(&still, 20),
        Err(BlockchainError::InvalidBlock(_))
    ));
    assert!(matches!(
        DifficultyAdjustment::calculate_time_span(&nine[..1]),
        Err(BlockchainError::InvalidBlock(_))
    ));
    assert_eq!(
        DifficultyAdjustment::calculate_time_span(&ten_blocks(1000, 4)).unwrap(),
        9000
    );
}

#[test]
fn difficulty_getters_and_range_check() {
    assert_eq!(DifficultyAdjustment::get_initial_difficulty(), 4);
    assert_eq!(DifficultyAdjustment::get_adjustment_period(), 10);
    assert_eq!(DifficultyAdjustment::get_target_block_time(), 120_000);
    assert!(DifficultyAdjustment::validate_difficulty(1).is_ok());
    assert!(DifficultyAdjustment::validate_difficulty(12).is_ok());
    assert!(matches!(
        DifficultyAdjustment::validate_difficulty(0),
        Err(BlockchainError::InvalidBlock(_))
    ));
    assert!(DifficultyAdjustment::validate_difficulty(13).is_err());
}
