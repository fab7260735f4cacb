//! Difficulty retargeting: every ten blocks the difficulty follows the time
//! that the last ten blocks took.

use crate::chain::block::{block_models, Block, BlockModel};
use crate::error::{owned, BlockchainError};
use vstd::prelude::*;

verus! {

/// The time that a block should take, in milliseconds.
pub const TARGET_BLOCK_TIME: u64 = 120_000;

/// The number of blocks between two retargets.
pub const DIFFICULTY_ADJUSTMENT_PERIOD: usize = 10;

/// The difficulty of the first blocks.
pub const INITIAL_DIFFICULTY: u32 = 4;

/// The least difficulty.
pub const MIN_DIFFICULTY: u32 = 1;

/// The largest difficulty.
pub const MAX_DIFFICULTY: u32 = 12;

/// The rules of retargeting.
pub struct DifficultyAdjustment;

/// How much a retarget adds to the difficulty, by the ratio of the time
/// taken to the time aimed at: 2 below a half, 1 below three quarters,
/// nothing up to one and a half, -1 up to two, -2 above.
pub open spec fn spec_difficulty_change(actual_time: u64, target_time: u64) -> int {
    if 2 * actual_time < target_time {
        2
    } else if 4 * actual_time < 3 * target_time {
        1
    } else if actual_time > 2 * target_time {
        -2
    } else if 2 * actual_time > 3 * target_time {
        -1
    } else {
        0
    }
}

/// A difficulty brought into the range from 1 to 12.
pub open spec fn spec_clamp_difficulty(difficulty: int) -> u32 {
    if difficulty < MIN_DIFFICULTY {
        MIN_DIFFICULTY
    } else if difficulty > MAX_DIFFICULTY {
        MAX_DIFFICULTY
    } else {
        difficulty as u32
    }
}

/// The difficulty after a retarget: a decrease stops at 0, and the result is
/// brought into the range from 1 to 12.
pub open spec fn spec_adjust_difficulty(current_difficulty: u32, actual_time: u64, target_time: u64)
    -> u32 {
    let changed = current_difficulty + spec_difficulty_change(actual_time, target_time);
    spec_clamp_difficulty(
        if changed < 0 {
            0
        } else {
            changed
        },
    )
}

/// Whether the time from the first to the last of `blocks` can be taken: at
/// least two blocks, the last newer than the first.
pub open spec fn spec_time_span_defined(blocks: Seq<BlockModel>) -> bool {
    blocks.len() >= 2 && blocks.last().timestamp > blocks.first().timestamp
}

/// The time from the first to the last of `blocks`, in milliseconds.
pub open spec fn spec_time_span(blocks: Seq<BlockModel>) -> int {
    blocks.last().timestamp - blocks.first().timestamp
}

/// What `calculate_next_difficulty` returns where it returns a difficulty:
/// off a retarget the difficulty of the parent, the last of the blocks, and
/// the initial difficulty where there is no block; at a retarget, which is
/// a height from ten on that ten divides, the adjusted difficulty.
pub open spec fn spec_next_difficulty(recent_blocks: Seq<BlockModel>, current_height: usize)
    -> u32 {
    if current_height < DIFFICULTY_ADJUSTMENT_PERIOD || current_height
        % DIFFICULTY_ADJUSTMENT_PERIOD != 0 {
        if recent_blocks.len() > 0 {
            recent_blocks.last().difficulty
        } else {
            INITIAL_DIFFICULTY
        }
    } else {
        spec_adjust_difficulty(
            recent_blocks.last().difficulty,
            spec_time_span(recent_blocks) as u64,
            (TARGET_BLOCK_TIME * DIFFICULTY_ADJUSTMENT_PERIOD) as u64,
        )
    }
}

/// Whether `calculate_next_difficulty` returns a difficulty: always off a
/// retarget; at a retarget only for exactly ten blocks of which the last is
/// newer than the first.
pub open spec fn spec_next_difficulty_defined(
    recent_blocks: Seq<BlockModel>,
    current_height: usize,
) -> bool {
    current_height < DIFFICULTY_ADJUSTMENT_PERIOD || current_height % DIFFICULTY_ADJUSTMENT_PERIOD
        != 0 || (recent_blocks.len() == DIFFICULTY_ADJUSTMENT_PERIOD && spec_time_span_defined(
        recent_blocks,
    ))
}

/// The difficulty stays in the range from 1 to 12 where the parent's lies in
/// it, and it differs from the parent's only at heights divisible by ten.
pub proof fn lemma_difficulty_bounds(recent_blocks: Seq<BlockModel>, current_height: usize)
    requires
        recent_blocks.len() > 0,
        MIN_DIFFICULTY <= recent_blocks.last().difficulty <= MAX_DIFFICULTY,
    ensures
        MIN_DIFFICULTY <= spec_next_difficulty(recent_blocks, current_height) <= MAX_DIFFICULTY,
        spec_next_difficulty(recent_blocks, current_height) != recent_blocks.last().difficulty
            ==> current_height >= DIFFICULTY_ADJUSTMENT_PERIOD && current_height
            % DIFFICULTY_ADJUSTMENT_PERIOD == 0,
{
}

impl DifficultyAdjustment {
    /// The difficulty of the block at `current_height`, given the blocks
    /// before it, oldest first. `InvalidBlock` at a retarget where the blocks
    /// are not ten or the last is not newer than the first.
    pub fn calculate_next_difficulty(recent_blocks: &[Block], current_height: usize) -> (out:
        Result<u32, BlockchainError>)
        ensures
            out is Ok <==> spec_next_difficulty_defined(
                block_models(recent_blocks@),
                current_height,
            ),
            out is Ok ==> out->Ok_0 == spec_next_difficulty(
                block_models(recent_blocks@),
                current_height,
            ),
            out is Err ==> out->Err_0 is InvalidBlock,
    {
        let ghost models = block_models(recent_blocks@);
        if current_height < DIFFICULTY_ADJUSTMENT_PERIOD || current_height
            % DIFFICULTY_ADJUSTMENT_PERIOD != 0 {
            if recent_blocks.len() > 0 {
                assert(models.last() == recent_blocks@[recent_blocks@.len() - 1]@);
                return Ok(recent_blocks[recent_blocks.len() - 1].get_difficulty());
            }
            return Ok(INITIAL_DIFFICULTY);
        }
        if recent_blocks.len() != DIFFICULTY_ADJUSTMENT_PERIOD {
            return Err(
                BlockchainError::InvalidBlock(owned("Need 10 blocks for difficulty adjustment")),
            );
        }
        let actual_time_span = match Self::calculate_time_span(recent_blocks) {
            Ok(span) => span,
            Err(e) => { return Err(e); },
        };
        let target_time_span = TARGET_BLOCK_TIME * DIFFICULTY_ADJUSTMENT_PERIOD as u64;
        assert(models.last() == recent_blocks@[recent_blocks@.len() - 1]@);
        let current_difficulty = recent_blocks[recent_blocks.len() - 1].get_difficulty();
        Ok(Self::adjust_difficulty(current_difficulty, actual_time_span, target_time_span))
    }

    /// The time from the first to the last of `blocks`; `InvalidBlock` for
    /// fewer than two blocks or a last block that is not newer than the first.
    pub fn calculate_time_span(blocks: &[Block]) -> (out: Result<u64, BlockchainError>)
        ensures
            out is Ok <==> spec_time_span_defined(block_models(blocks@)),
            out is Ok ==> out->Ok_0 == spec_time_span(block_models(blocks@)),
            out is Err ==> out->Err_0 is InvalidBlock,
    {
        let ghost models = block_models(blocks@);
        if blocks.len() < 2 {
            return Err(
                BlockchainError::InvalidBlock(
                    owned("Need at least 2 blocks to calculate time span"),
                ),
            );
        }
        assert(models.first() == blocks@[0]@);
        assert(models.last() == blocks@[blocks@.len() - 1]@);
        let first_timestamp = blocks[0].get_timestamp();
        let last_timestamp = blocks[blocks.len() - 1].get_timestamp();
        if last_timestamp <= first_timestamp {
            return Err(
                BlockchainError::InvalidBlock(
                    owned("Invalid block timestamps: last block is not newer than first"),
                ),
            );
        }
        let span: i128 = last_timestamp as i128 - first_timestamp as i128;
        Ok(span as u64)
    }

    /// The difficulty after a retarget.
    pub fn adjust_difficulty(current_difficulty: u32, actual_time: u64, target_time: u64) -> (out:
        u32)
        ensures
            out == spec_adjust_difficulty(current_difficulty, actual_time, target_time),
            MIN_DIFFICULTY <= out <= MAX_DIFFICULTY,
    {
        let actual: u128 = actual_time as u128;
        let target: u128 = target_time as u128;
        let current: u64 = current_difficulty as u64;
        let new_difficulty: u64 = if 2 * actual < target {
            current + 2
        } else if 4 * actual < 3 * target {
            current + 1
        } else if actual > 2 * target {
            if current >= 2 {
                current - 2
            } else {
                0
            }
        } else if 2 * actual > 3 * target {
            if current >= 1 {
                current - 1
            } else {
                0
            }
        } else {
            current
        };
        if new_difficulty < MIN_DIFFICULTY as u64 {
            MIN_DIFFICULTY
        } else if new_difficulty > MAX_DIFFICULTY as u64 {
            MAX_DIFFICULTY
        } else {
            new_difficulty as u32
        }
    }

    /// The difficulty of the first blocks.
    pub fn get_initial_difficulty() -> (out: u32)
        ensures
            out == INITIAL_DIFFICULTY,
    {
        INITIAL_DIFFICULTY
    }

    /// The number of blocks between two retargets.
    pub fn get_adjustment_period() -> (out: usize)
        ensures
            out == DIFFICULTY_ADJUSTMENT_PERIOD,
    {
        DIFFICULTY_ADJUSTMENT_PERIOD
    }

    /// The time that a block should take, in milliseconds.
    pub fn get_target_block_time() -> (out: u64)
        ensures
            out == TARGET_BLOCK_TIME,
    {
        TARGET_BLOCK_TIME
    }

    /// `Ok` exactly where the difficulty lies in the range from 1 to 12, else
    /// `InvalidBlock`.
    pub fn validate_difficulty(difficulty: u32) -> (out: Result<(), BlockchainError>)
        ensures
            out is Ok <==> MIN_DIFFICULTY <= difficulty <= MAX_DIFFICULTY,
            out is Err ==> out->Err_0 is InvalidBlock,
    {
        if difficulty < MIN_DIFFICULTY || difficulty > MAX_DIFFICULTY {
            return Err(BlockchainError::InvalidBlock(owned("Difficulty is outside valid range")));
        }
        Ok(())
    }
}

} // verus!
