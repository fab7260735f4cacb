//! What holds of every block that is mined, and of every chain that grows
//! by mining or by blocks that extend its tip.

use crate::chain::block::{spec_fees_after_first, spec_genesis_block, spec_validated, BlockModel};
use crate::chain::blockchain::{
    lemma_block_index,
    lemma_block_present,
    lemma_spent_refs_after_coinbase,
    spec_add_block,
    spec_all_verify,
    spec_block_absent,
    spec_block_index,
    spec_block_transactions,
    spec_can_mine,
    spec_can_mine_at,
    spec_created_with,
    spec_first_coinbase,
    spec_get_block,
    spec_is_output_spent,
    spec_main_chain,
    spec_mined_on,
    spec_no_double_spend,
    spec_recent_blocks,
    spec_sync_step,
    spec_valid_for_sync,
    spec_walk,
    ChainModel,
    SyncModel,
};
use crate::chain::difficulty::{DIFFICULTY_ADJUSTMENT_PERIOD, MAX_DIFFICULTY, MIN_DIFFICULTY};
use crate::chain::fees::spec_total_fees;
use crate::chain::monetary::INITIAL_BLOCK_REWARD;
use crate::chain::proof_of_work::spec_pow_valid;
use crate::chain::transaction::{
    spec_coinbase, spec_input_sum, spec_verify, sum_values, TransactionModel,
};
use crate::utils::crypto::{hex_digits, spec_hex_encode};
use vstd::prelude::*;

verus! {

/// Balance conservation: a transaction that is valid against a chain and is
/// no coinbase spends exactly what its outputs and its fee add up to.
pub proof fn lemma_valid_spend_conserves_value(
    chain: Seq<BlockModel>,
    transaction: TransactionModel,
)
    requires
        spec_verify(chain, transaction),
        !transaction.is_coinbase(),
    ensures
        spec_input_sum(chain, transaction.vin) == transaction.output_sum() + transaction.fee,
        spec_input_sum(chain, transaction.vin) <= u64::MAX,
{
}

/// The sum of all fees of a list.
pub open spec fn spec_all_fees(transactions: Seq<TransactionModel>) -> int
    decreases transactions.len(),
{
    if transactions.len() == 0 {
        0
    } else {
        spec_all_fees(transactions.drop_last()) + transactions.last().fee
    }
}

/// Among valid transactions, those of the shape of a coinbase carry no fee,
/// so the fees of the others are the fees of all.
pub proof fn lemma_valid_fees(chain: Seq<BlockModel>, transactions: Seq<TransactionModel>)
    requires
        spec_all_verify(chain, transactions),
    ensures
        spec_total_fees(transactions) == spec_all_fees(transactions),
    decreases transactions.len(),
{
    if transactions.len() > 0 {
        let front = transactions.drop_last();
        assert forall|i: int| 0 <= i < front.len() implies spec_verify(chain, #[trigger] front[i]) by {
            assert(front[i] == transactions[i]);
        }
        lemma_valid_fees(chain, front);
        assert(spec_verify(chain, transactions[transactions.len() - 1]));
    }
}

/// The fees behind a first transaction are all fees of what follows it.
pub proof fn lemma_fees_behind(first: TransactionModel, transactions: Seq<TransactionModel>)
    ensures
        spec_fees_after_first(seq![first] + transactions) == spec_all_fees(transactions),
    decreases transactions.len(),
{
    let all = seq![first] + transactions;
    if transactions.len() == 0 {
        assert(all.len() == 1);
    } else {
        lemma_fees_behind(first, transactions.drop_last());
        assert(all.drop_last() =~= seq![first] + transactions.drop_last());
        assert(all.last() == transactions.last());
    }
}

/// The sum of the values of a single output is its value.
proof fn lemma_single_output_sum(transaction: TransactionModel)
    requires
        transaction.vout.len() == 1,
    ensures
        transaction.output_sum() == transaction.vout[0].value,
{
    assert(transaction.vout.drop_last() =~= Seq::empty());
    assert(sum_values(transaction.vout.drop_last()) == 0);
}

/// Coinbase reward: a block that is mined for a miner has a coinbase that
/// pays the block reward plus the fees of the other transactions.
pub proof fn lemma_mined_reward(
    before: ChainModel,
    after: ChainModel,
    block: BlockModel,
    transactions: Seq<TransactionModel>,
    miner: Seq<char>,
    extranonce: Seq<u8>,
    timestamp: i64,
)
    requires
        spec_can_mine(before, transactions, Some(miner), extranonce),
        spec_mined_on(before, after, block, transactions, Some(miner), extranonce, timestamp),
    ensures
        block.reward_in_order(),
        block.transactions[0].output_sum() == INITIAL_BLOCK_REWARD + spec_total_fees(
            transactions,
        ),
{
    let all = spec_block_transactions(transactions, Some(miner), extranonce);
    let coinbase = spec_coinbase(
        (INITIAL_BLOCK_REWARD + spec_total_fees(transactions)) as u64,
        crate::wallet::wallet::spec_address_key_hash(miner)->Some_0,
        extranonce,
    );
    assert(all == seq![coinbase] + transactions);
    assert(block.transactions == all);
    assert(all[0] == coinbase);
    crate::chain::fees::lemma_total_fees_grows(transactions, 0);
    lemma_valid_fees(before.main_chain(), transactions);
    lemma_fees_behind(coinbase, transactions);
    lemma_single_output_sum(coinbase);
    assert(coinbase.vout[0].value == INITIAL_BLOCK_REWARD + spec_total_fees(transactions));
}

/// No double spend within a block: in a block that is mined, no output is
/// spent by two inputs.
pub proof fn lemma_mined_block_spends_once(
    before: ChainModel,
    after: ChainModel,
    block: BlockModel,
    transactions: Seq<TransactionModel>,
    miner: Option<Seq<char>>,
    extranonce: Seq<u8>,
    timestamp: i64,
)
    requires
        spec_can_mine(before, transactions, miner, extranonce),
        spec_mined_on(before, after, block, transactions, miner, extranonce, timestamp),
    ensures
        spec_no_double_spend(block.transactions),
{
    match miner {
        Some(address) => {
            let all = spec_block_transactions(transactions, miner, extranonce);
            lemma_spent_refs_after_coinbase(all[0], transactions);
            assert(all =~= seq![all[0]] + transactions);
        },
        None => {},
    }
}

/// No double spend across blocks: no input of a block that is mined names
/// an output that an earlier block of the main chain has spent.
pub proof fn lemma_mined_inputs_unspent(
    before: ChainModel,
    transactions: Seq<TransactionModel>,
    miner: Option<Seq<char>>,
    extranonce: Seq<u8>,
    t: int,
    i: int,
)
    requires
        spec_can_mine(before, transactions, miner, extranonce),
        0 <= t < transactions.len(),
        !transactions[t].is_coinbase(),
        0 <= i < transactions[t].vin.len(),
    ensures
        !spec_is_output_spent(
            before.main_chain(),
            transactions[t].vin[i].txid,
            transactions[t].vin[i].vout,
        ),
{
    assert(spec_verify(before.main_chain(), transactions[t]));
}

/// Merkle commitment and proof of work: a block that is mined commits to its
/// transactions, its digest is below the target of its difficulty, its nonce
/// is the least that passes, its hash is the digest in hexadecimal, and its
/// encoding is no larger than 1 MiB.
pub proof fn lemma_mined_block_commits(
    before: ChainModel,
    after: ChainModel,
    block: BlockModel,
    transactions: Seq<TransactionModel>,
    miner: Option<Seq<char>>,
    extranonce: Seq<u8>,
    timestamp: i64,
)
    requires
        spec_can_mine_at(before, transactions, miner, extranonce, timestamp),
        spec_mined_on(before, after, block, transactions, miner, extranonce, timestamp),
    ensures
        block.merkle_in_order(),
        spec_pow_valid(block),
        forall|n: i64|
            0 <= n < block.nonce ==> !#[trigger] crate::chain::proof_of_work::spec_pow_valid_at(
                block,
                n,
            ),
        block.hash == spec_hex_encode(
            crate::utils::crypto::spec_sha256(
                crate::chain::proof_of_work::spec_preimage(block, block.nonce),
            ),
        ),
        block.within_size(),
{
    crate::chain::block::lemma_mined_block_is_one(
        block,
        before.tip,
        spec_block_transactions(transactions, miner, extranonce),
        crate::chain::blockchain::spec_next_height(before),
        block.difficulty,
        timestamp,
    );
}

/// The newest block of a chain is the last of its recent blocks.
proof fn lemma_recent_last(chain: Seq<BlockModel>, count: int)
    requires
        chain.len() > 0,
        count > 0,
    ensures
        spec_recent_blocks(chain, count).len() > 0,
        spec_recent_blocks(chain, count).last() == chain[0],
{
}

/// Difficulty bounds: a block that is mined on a tip whose difficulty lies
/// in the range from 1 to 12 has a difficulty in that range, and one that
/// differs from the tip's only at a height from ten on that ten divides.
pub proof fn lemma_mined_difficulty(
    before: ChainModel,
    after: ChainModel,
    block: BlockModel,
    transactions: Seq<TransactionModel>,
    miner: Option<Seq<char>>,
    extranonce: Seq<u8>,
    timestamp: i64,
)
    requires
        spec_can_mine(before, transactions, miner, extranonce),
        spec_mined_on(before, after, block, transactions, miner, extranonce, timestamp),
        MIN_DIFFICULTY <= spec_get_block(before.blocks, before.tip)->Some_0.difficulty
            <= MAX_DIFFICULTY,
    ensures
        MIN_DIFFICULTY <= block.difficulty <= MAX_DIFFICULTY,
        block.difficulty != spec_get_block(before.blocks, before.tip)->Some_0.difficulty
            ==> block.height >= DIFFICULTY_ADJUSTMENT_PERIOD && block.height
            % DIFFICULTY_ADJUSTMENT_PERIOD == 0,
{
    let chain = before.main_chain();
    let tip_block = spec_get_block(before.blocks, before.tip)->Some_0;
    lemma_tip_heads_chain(before);
    lemma_recent_last(chain, DIFFICULTY_ADJUSTMENT_PERIOD as int);
    crate::chain::difficulty::lemma_difficulty_bounds(
        spec_recent_blocks(chain, DIFFICULTY_ADJUSTMENT_PERIOD as int),
        block.height,
    );
}

/// Where the store holds the tip, the main chain starts with the block of
/// the tip.
pub proof fn lemma_tip_heads_chain(chain: ChainModel)
    requires
        spec_get_block(chain.blocks, chain.tip) is Some,
    ensures
        chain.main_chain().len() > 0,
        chain.main_chain()[0] == spec_get_block(chain.blocks, chain.tip)->Some_0,
        chain.main_chain()[0].hash == chain.tip,
{
    lemma_block_present(chain.blocks, chain.tip);
    assert(chain.blocks.len() > 0);
}

/// A chain that is given newest block first is linked when each block names
/// the one behind it as its parent and stands one higher than it, and the
/// last names the parent `"None"`.
pub open spec fn spec_linked(chain: Seq<BlockModel>) -> bool {
    &&& chain.len() > 0
    &&& chain.last().pre_block_hash == "None"@
    &&& forall|k: int|
        0 <= k < chain.len() - 1 ==> (#[trigger] chain[k]).pre_block_hash == chain[k + 1].hash
            && chain[k].height == chain[k + 1].height + 1
}

/// A chain is in order when its store holds no block under the hash `"None"`
/// and its main chain is linked: the walk from the tip along the parent
/// hashes ends at a first block.
pub open spec fn spec_chain_in_order(chain: ChainModel) -> bool {
    spec_get_block(chain.blocks, "None"@) is None && spec_linked(chain.main_chain())
}

/// In a linked chain the heights fall strictly from the tip to the first
/// block.
pub proof fn lemma_linked_heights_fall(chain: Seq<BlockModel>, i: int, j: int)
    requires
        spec_linked(chain),
        0 <= i < j < chain.len(),
    ensures
        chain[i].height > chain[j].height,
        chain[i].height == chain[j].height + (j - i),
    decreases j - i,
{
    if i + 1 < j {
        lemma_linked_heights_fall(chain, i + 1, j);
    }
    assert(chain[i].pre_block_hash == chain[i + 1].hash);
}

/// No hexadecimal text is the text `"None"`.
pub proof fn lemma_hex_is_not_none(data: Seq<u8>)
    ensures
        spec_hex_encode(data) != "None"@,
{
    reveal_strlit("None");
    let text = spec_hex_encode(data);
    if text.len() == 4 {
        assert(text[0] == hex_digits()[data[0] as int / 16]);
        assert("None"@[0] == 'N');
    }
}

/// A block that is put into a store that does not hold its hash leaves
/// every other block where it was.
pub proof fn lemma_get_after_push(blocks: Seq<BlockModel>, block: BlockModel, hash: Seq<char>)
    requires
        hash != block.hash,
    ensures
        spec_get_block(blocks.push(block), hash) == spec_get_block(blocks, hash),
{
    let after = blocks.push(block);
    if spec_block_absent(blocks, hash) {
        assert forall|j: int| 0 <= j < after.len() implies (#[trigger] after[j]).hash != hash by {
            if j < blocks.len() {
                assert(after[j] == blocks[j]);
            }
        }
    } else {
        lemma_block_present(blocks, hash);
        let i = spec_block_index(blocks, hash);
        assert(after[i] == blocks[i]);
        assert forall|j: int| 0 <= j < i implies (#[trigger] after[j]).hash != hash by {
            assert(after[j] == blocks[j]);
        }
        lemma_block_index(after, hash, i);
    }
}

/// A linked walk in a store without a block under `"None"` is the same in
/// the store that has taken one more block whose hash it did not hold,
/// whatever fuel is added.
pub proof fn lemma_linked_walk_after_push(
    blocks: Seq<BlockModel>,
    block: BlockModel,
    hash: Seq<char>,
    fuel: nat,
    more: nat,
)
    requires
        spec_block_absent(blocks, block.hash),
        block.hash != "None"@,
        spec_get_block(blocks, "None"@) is None,
        spec_linked(spec_walk(blocks, hash, fuel)),
        fuel <= more,
    ensures
        spec_walk(blocks.push(block), hash, more) == spec_walk(blocks, hash, fuel),
    decreases fuel,
{
    let walk = spec_walk(blocks, hash, fuel);
    let after = blocks.push(block);
    assert(fuel > 0);
    assert(spec_get_block(blocks, hash) is Some);
    let head = spec_get_block(blocks, hash)->Some_0;
    lemma_block_present(blocks, hash);
    assert(hash != block.hash);
    lemma_get_after_push(blocks, block, hash);
    let rest = spec_walk(blocks, head.pre_block_hash, (fuel - 1) as nat);
    assert(walk =~= seq![head] + rest);
    assert(spec_walk(after, hash, more) =~= seq![head] + spec_walk(
        after,
        head.pre_block_hash,
        (more - 1) as nat,
    ));
    if rest.len() == 0 {
        assert(walk.last() == head);
        lemma_get_after_push(blocks, block, "None"@);
        assert(spec_walk(after, "None"@, (more - 1) as nat) =~= Seq::<BlockModel>::empty());
    } else {
        assert(spec_linked(rest)) by {
            assert(rest.last() == walk.last());
            assert forall|k: int| 0 <= k < rest.len() - 1 implies (#[trigger] rest[k]).pre_block_hash
                == rest[k + 1].hash && rest[k].height == rest[k + 1].height + 1 by {
                assert(rest[k] == walk[k + 1]);
                assert(rest[k + 1] == walk[k + 2]);
                assert(walk[k + 1].pre_block_hash == walk[k + 2].hash);
            }
        }
        lemma_linked_walk_after_push(
            blocks,
            block,
            head.pre_block_hash,
            (fuel - 1) as nat,
            (more - 1) as nat,
        );
    }
}

/// The first block passes validation: the first block of a chain that was
/// made with an extranonce and a timestamp is valid without a parent at
/// every time that is no more than two hours before its timestamp, and the
/// chain holds it as its tip.
pub proof fn lemma_first_block_is_valid(
    blocks: Seq<BlockModel>,
    chainstate: Seq<crate::chain::blockchain::RecordModel>,
    chain: ChainModel,
    genesis_address: Seq<char>,
    extranonce: Seq<u8>,
    timestamp: i64,
    now: i64,
)
    requires
        spec_created_with(blocks, chainstate, chain, genesis_address, extranonce, timestamp),
        now >= timestamp - 7_200_000,
    ensures
        spec_get_block(chain.blocks, chain.tip) == Some(
            spec_genesis_block(spec_first_coinbase(genesis_address, extranonce), timestamp),
        ),
        chain.best_height() == Some(0usize),
        spec_genesis_block(spec_first_coinbase(genesis_address, extranonce), timestamp).valid_at(
            None,
            now,
        ),
        spec_validated(
            spec_genesis_block(spec_first_coinbase(genesis_address, extranonce), timestamp),
            None,
            now,
            Ok(true),
        ),
{
    let coinbase = spec_first_coinbase(genesis_address, extranonce);
    let genesis = spec_genesis_block(coinbase, timestamp);
    crate::chain::blockchain::lemma_put_then_get(blocks, genesis);
    assert(genesis.transactions[0] == coinbase);
    lemma_single_output_sum(coinbase);
    assert(spec_fees_after_first(genesis.transactions) == 0);
    assert(genesis.coinbase_in_place());
    assert(genesis.reward_in_order());
}

/// Chain linkage, at the start: a store that holds a first block alone, as
/// its tip, is in order.
pub proof fn lemma_first_block_in_order(genesis: BlockModel)
    requires
        genesis.pre_block_hash == "None"@,
        genesis.hash != "None"@,
    ensures
        spec_chain_in_order(
            ChainModel { tip: genesis.hash, blocks: seq![genesis], chainstate: Seq::empty() },
        ),
        spec_main_chain(seq![genesis], genesis.hash) == seq![genesis],
{
    let blocks = seq![genesis];
    assert(blocks[0].hash == genesis.hash);
    lemma_block_index(blocks, genesis.hash, 0);
    assert(spec_block_absent(blocks, "None"@)) by {
        assert forall|j: int| 0 <= j < blocks.len() implies (#[trigger] blocks[j]).hash != "None"@ by {
            assert(blocks[j] == genesis);
        }
    }
    assert(spec_walk(blocks, "None"@, 0) =~= Seq::<BlockModel>::empty());
    assert(spec_walk(blocks, genesis.hash, 1) =~= seq![genesis] + spec_walk(blocks, "None"@, 0));
    assert(spec_main_chain(blocks, genesis.hash) =~= seq![genesis]);
}

/// Chain linkage, for a block that extends the tip: where a chain is in
/// order and a block comes whose parent is the tip, whose height is one
/// above the tip's and whose hash the store did not hold, adding it makes it
/// the tip, the main chain grows by it, and the chain is in order again.
pub proof fn lemma_linked_block_keeps_chain_in_order(before: ChainModel, block: BlockModel)
    requires
        spec_chain_in_order(before),
        spec_get_block(before.blocks, before.tip) is Some,
        spec_get_block(before.blocks, block.hash) is None,
        block.hash != "None"@,
        block.pre_block_hash == before.tip,
        block.height == spec_get_block(before.blocks, before.tip)->Some_0.height + 1,
    ensures
        spec_add_block(before, block) == Some(
            ChainModel {
                tip: block.hash,
                blocks: before.blocks.push(block),
                chainstate: before.chainstate,
            },
        ),
        spec_add_block(before, block)->Some_0.main_chain() == seq![block] + before.main_chain(),
        spec_chain_in_order(spec_add_block(before, block)->Some_0),
{
    let blocks = before.blocks;
    let stored = blocks.push(block);
    let old_chain = before.main_chain();
    lemma_tip_heads_chain(before);
    lemma_get_after_push(blocks, block, before.tip);
    let after = ChainModel { tip: block.hash, blocks: stored, chainstate: before.chainstate };
    assert(spec_add_block(before, block) == Some(after));
    assert(stored[blocks.len() as int] == block);
    assert forall|j: int| 0 <= j < blocks.len() implies (#[trigger] stored[j]).hash != block.hash by {
        assert(stored[j] == blocks[j]);
    }
    lemma_block_index(stored, block.hash, blocks.len() as int);
    lemma_linked_walk_after_push(blocks, block, before.tip, blocks.len(), blocks.len());
    assert(spec_walk(stored, block.hash, stored.len()) =~= seq![block] + spec_walk(
        stored,
        block.pre_block_hash,
        blocks.len(),
    ));
    let new_chain = after.main_chain();
    assert(new_chain =~= seq![block] + old_chain);
    lemma_get_after_push(blocks, block, "None"@);
    assert forall|k: int| 0 <= k < new_chain.len() - 1 implies (#[trigger] new_chain[k]).pre_block_hash
        == new_chain[k + 1].hash && new_chain[k].height == new_chain[k + 1].height + 1 by {
        if k > 0 {
            assert(new_chain[k] == old_chain[k - 1]);
            assert(new_chain[k + 1] == old_chain[k]);
            assert(old_chain[k - 1].pre_block_hash == old_chain[k].hash);
        }
    }
    assert(new_chain.last() == old_chain.last());
}

/// Chain linkage, for a block that does not move the tip: where a chain is
/// in order and a block comes that is no higher than the tip and whose hash
/// the store did not hold, adding it leaves the tip and the main chain as
/// they were, and the chain is in order still.
pub proof fn lemma_lower_block_keeps_chain_in_order(before: ChainModel, block: BlockModel)
    requires
        spec_chain_in_order(before),
        spec_get_block(before.blocks, before.tip) is Some,
        spec_get_block(before.blocks, block.hash) is None,
        block.hash != "None"@,
        block.height <= spec_get_block(before.blocks, before.tip)->Some_0.height,
    ensures
        spec_add_block(before, block) == Some(
            ChainModel { blocks: before.blocks.push(block), ..before },
        ),
        spec_add_block(before, block)->Some_0.main_chain() == before.main_chain(),
        spec_chain_in_order(spec_add_block(before, block)->Some_0),
{
    let blocks = before.blocks;
    lemma_get_after_push(blocks, block, before.tip);
    lemma_get_after_push(blocks, block, "None"@);
    lemma_linked_walk_after_push(blocks, block, before.tip, blocks.len(), blocks.len() + 1);
}

/// Whether a block that comes from a peer keeps the main chain linked: it
/// is no higher than the tip, or it names the tip as its parent and is one
/// higher.
pub open spec fn spec_fits_the_tip(chain: ChainModel, block: BlockModel) -> bool {
    match spec_get_block(chain.blocks, chain.tip) {
        Some(tip_block) => block.height <= tip_block.height || (block.pre_block_hash == chain.tip
            && block.height == tip_block.height + 1),
        None => false,
    }
}

/// Chain linkage under synchronization, block by block: where a chain is in
/// order and the block that comes fits the tip and has a hash other than
/// `"None"`, the chain is in order after the block was passed over, dropped
/// or taken.
pub proof fn lemma_sync_step_keeps_chain_in_order(state: SyncModel, block: BlockModel)
    requires
        spec_chain_in_order(state.chain),
        spec_fits_the_tip(state.chain, block),
        block.hash != "None"@,
    ensures
        spec_chain_in_order(spec_sync_step(state, block).chain),
{
    let tip_block = spec_get_block(state.chain.blocks, state.chain.tip)->Some_0;
    if !state.failed && spec_get_block(state.chain.blocks, block.hash) is None
        && spec_valid_for_sync(state.chain, block) {
        if block.height <= tip_block.height {
            lemma_lower_block_keeps_chain_in_order(state.chain, block);
        } else {
            lemma_linked_block_keeps_chain_in_order(state.chain, block);
        }
    }
}

/// Chain linkage, step by step: where a chain is in order and a block is
/// mined on it whose hash the store did not hold, the main chain grows by
/// that block at its tip and the chain is in order again. So the walk from
/// the tip ends at the first block, with heights that fall by one at each
/// step.
pub proof fn lemma_mining_keeps_chain_in_order(
    before: ChainModel,
    after: ChainModel,
    block: BlockModel,
    transactions: Seq<TransactionModel>,
    miner: Option<Seq<char>>,
    extranonce: Seq<u8>,
    timestamp: i64,
)
    requires
        spec_chain_in_order(before),
        spec_can_mine(before, transactions, miner, extranonce),
        spec_mined_on(before, after, block, transactions, miner, extranonce, timestamp),
        spec_get_block(before.blocks, block.hash) is None,
    ensures
        after.main_chain() == seq![block] + before.main_chain(),
        spec_chain_in_order(after),
{
    assert(block.hash != "None"@) by {
        if block.nonce < i64::MAX {
            lemma_hex_is_not_none(
                crate::utils::crypto::spec_sha256(
                    crate::chain::proof_of_work::spec_preimage(block, block.nonce),
                ),
            );
        } else {
            lemma_hex_is_not_none(
                crate::utils::crypto::spec_sha256(
                    crate::chain::proof_of_work::spec_preimage(block, (i64::MAX - 1) as i64),
                ),
            );
        }
    }
    lemma_linked_block_keeps_chain_in_order(before, block);
    assert(after.blocks == before.blocks.push(block));
}

} // verus!
