//! Chains, wallets and blocks for trials.

use crate::chain::block::{
    block_models, spec_built_from, spec_mined, spec_mined_block, spec_within_bounds, Block,
    BlockModel,
};
use crate::chain::blockchain::{
    spec_created, spec_first_block_fits, spec_mining_done, text_eq, Blockchain, ChainStore,
};
use crate::chain::fees::FeeCalculator;
use crate::chain::monetary::INITIAL_BLOCK_REWARD;
use crate::chain::proof_of_work::{spec_pow_valid, ProofOfWork};
use crate::chain::transaction::{spec_coinbase, spec_spend_made, transaction_models, Transaction};
use crate::error::{owned, BlockchainError};
use crate::storage::utxo_set::UTXOSet;
use crate::wallet::wallet::{spec_address_key_hash, spec_validate_address};
use crate::wallet::wallets::{spec_wallet_address, Wallets};
use vstd::prelude::*;

verus! {

/// The address that the chains of a trial pay their first reward to.
pub const TEST_ADDRESS: &'static str = "1A1zP1eP5QGefi2DMPTfTL5SLmv7DivfNa";

/// The settings of a trial.
pub struct TestConfig {
    pub initial_difficulty: u32,
    pub block_time_target: u64,
    pub genesis_reward: u64,
}

impl Default for TestConfig {
    fn default() -> (out: Self)
        ensures
            out.initial_difficulty == 1,
            out.block_time_target == 1,
            out.genesis_reward == 5_000_000_000,
    {
        Self { initial_difficulty: 1, block_time_target: 1, genesis_reward: 5_000_000_000 }
    }
}

/// A chain in an empty store, with a first block that pays to the address
/// of the trials.
pub fn create_test_blockchain() -> (out: Result<Blockchain, BlockchainError>)
    ensures
        out is Ok ==> spec_created(Seq::empty(), Seq::empty(), out->Ok_0@, TEST_ADDRESS@),
        out is Ok ==> out->Ok_0@.best_height() == Some(0usize),
        out is Ok ==> out->Ok_0.spec_db_path() == "test_blockchain"@,
        out is Err ==> out->Err_0 is InvalidAddress || out->Err_0 is InvalidBlock
            || out->Err_0 is Crypto,
        out is Err && out->Err_0 is InvalidBlock ==> exists|extranonce: Seq<u8>, timestamp: i64|
            extranonce.len() == 16 && timestamp >= 0 && !#[trigger] spec_first_block_fits(
                TEST_ADDRESS@,
                extranonce,
                timestamp,
            ),
{
    let store = ChainStore { tip: None, blocks: Vec::new(), chainstate: Vec::new() };
    assert(block_models(store.blocks@) =~= Seq::empty());
    assert(crate::chain::blockchain::record_models(store.chainstate@) =~= Seq::empty());
    Blockchain::create_blockchain_with_path(TEST_ADDRESS, "test_blockchain", store)
}

/// `node_count` chains, each in an empty store of its own.
pub fn create_test_network(node_count: usize) -> (out: Result<Vec<Blockchain>, BlockchainError>)
    ensures
        out is Ok ==> out->Ok_0@.len() == node_count && forall|i: int|
            0 <= i < node_count ==> spec_created(
                Seq::empty(),
                Seq::empty(),
                (#[trigger] out->Ok_0@[i])@,
                TEST_ADDRESS@,
            ) && out->Ok_0@[i]@.best_height() == Some(0usize),
        out is Err ==> out->Err_0 is InvalidAddress || out->Err_0 is InvalidBlock
            || out->Err_0 is Crypto,
        out is Err && out->Err_0 is InvalidBlock ==> exists|extranonce: Seq<u8>, timestamp: i64|
            extranonce.len() == 16 && timestamp >= 0 && !#[trigger] spec_first_block_fits(
                TEST_ADDRESS@,
                extranonce,
                timestamp,
            ),
{
    let mut nodes: Vec<Blockchain> = Vec::new();
    let mut i: usize = 0;
    while i < node_count
        invariant
            i <= node_count,
            nodes@.len() == i,
            forall|j: int|
                0 <= j < i ==> spec_created(
                    Seq::empty(),
                    Seq::empty(),
                    (#[trigger] nodes@[j])@,
                    TEST_ADDRESS@,
                ) && nodes@[j]@.best_height() == Some(0usize),
        decreases node_count - i,
    {
        let chain = match create_test_blockchain() {
            Ok(chain) => chain,
            Err(e) => { return Err(e); },
        };
        nodes.push(chain);
        i += 1;
    }
    Ok(nodes)
}

/// Whether a wallet stands under `address` that holds a key pair and has
/// that address.
pub open spec fn spec_holds_own_wallet(wallets: Wallets, address: Seq<char>) -> bool {
    &&& wallets.spec_has(address)
    &&& wallets.spec_wallet(address) is Some
    &&& wallets.spec_wallet(address)->Some_0.wf()
    &&& address == spec_wallet_address(wallets.spec_wallet(address)->Some_0)
}

/// `count` wallets with fresh key pairs, and their addresses in the order in
/// which they were made.
pub fn create_test_wallets(count: usize) -> (out: Result<(Wallets, Vec<String>), BlockchainError>)
    ensures
        out is Ok ==> out->Ok_0.1@.len() == count && forall|i: int|
            0 <= i < count ==> spec_holds_own_wallet(out->Ok_0.0, (#[trigger] out->Ok_0.1@[i])@),
        out is Err ==> out->Err_0 is Crypto,
{
    let mut wallets = Wallets::new();
    let mut addresses: Vec<String> = Vec::new();
    let mut i: usize = 0;
    while i < count
        invariant
            i <= count,
            addresses@.len() == i,
            forall|j: int| 0 <= j < i ==> spec_holds_own_wallet(wallets, (#[trigger] addresses@[j])@),
        decreases count - i,
    {
        let ghost before = wallets;
        let ghost earlier = addresses@;
        let address = match wallets.create_wallet() {
            Ok(address) => address,
            Err(e) => { return Err(e); },
        };
        addresses.push(address);
        proof {
            assert forall|j: int| 0 <= j < i + 1 implies spec_holds_own_wallet(
                wallets,
                (#[trigger] addresses@[j])@,
            ) by {
                if j < i {
                    assert(addresses@[j] == earlier[j]);
                    assert(spec_holds_own_wallet(before, earlier[j]@));
                    if earlier[j]@ != address@ {
                        assert(wallets.spec_wallet(earlier[j]@) == before.spec_wallet(earlier[j]@));
                    }
                }
            }
        }
        i += 1;
    }
    Ok((wallets, addresses))
}

/// A signed spend of `amount` from `from` to `to` at normal priority with
/// the default fee calculator and an empty mempool.
pub fn create_test_transaction(
    from: &str,
    to: &str,
    amount: u64,
    utxo_set: &UTXOSet,
    wallets: &Wallets,
) -> (out: Result<Transaction, BlockchainError>)
    ensures
        spec_spend_made(out, from@, to@, amount, 1, *utxo_set, *wallets),
{
    let fee_calculator = FeeCalculator::new();
    Transaction::new_utxo_transaction(from, to, amount, utxo_set, wallets, &fee_calculator, 0)
}

/// Mines a block from `transactions` with a coinbase for `miner_address`.
pub fn mine_test_block(blockchain: &mut Blockchain, transactions: &[Transaction], miner_address: &str)
    -> (out: Result<Block, BlockchainError>)
    ensures
        final(blockchain).spec_db_path() == old(blockchain).spec_db_path(),
        spec_mining_done(
            old(blockchain)@,
            final(blockchain)@,
            transaction_models(transactions@),
            Some(miner_address@),
            out,
        ),
{
    blockchain.mine_block_with_fees(transactions, miner_address)
}

/// What the check of a walk gives, block by block: each block must name as
/// its parent the hash of the block before it in the walk (`"None"` for the
/// first of the walk), and have a valid proof of work and the Merkle root of
/// its transactions. `None` stands for a block without transactions.
pub open spec fn spec_walk_in_order(chain: Seq<BlockModel>, expected_parent: Seq<char>) -> Option<
    bool,
>
    decreases chain.len(),
{
    if chain.len() == 0 {
        Some(true)
    } else if chain[0].pre_block_hash != expected_parent {
        Some(false)
    } else if !spec_pow_valid(chain[0]) {
        Some(false)
    } else if chain[0].transactions.len() == 0 {
        None
    } else if !chain[0].merkle_in_order() {
        Some(false)
    } else {
        spec_walk_in_order(chain.drop_first(), chain[0].hash)
    }
}

/// Checks the walk from the tip; see `spec_walk_in_order`. `InvalidBlock`
/// where a block without transactions is met.
pub fn validate_blockchain_integrity(blockchain: &Blockchain) -> (out: Result<
    bool,
    BlockchainError,
>)
    ensures
        match spec_walk_in_order(blockchain@.main_chain(), "None"@) {
            Some(valid) => out == Ok::<bool, BlockchainError>(valid),
            None => out is Err && out->Err_0 is InvalidBlock,
        },
{
    let blocks = blockchain.main_chain_blocks();
    let ghost chain = blockchain@.main_chain();
    let mut prev_hash = owned("None");
    let mut k: usize = 0;
    assert(chain.skip(0) =~= chain);
    while k < blocks.len()
        invariant
            k <= blocks@.len(),
            chain == blockchain@.main_chain(),
            chain == crate::chain::block::block_models(blocks@),
            chain.len() == blocks@.len(),
            spec_walk_in_order(chain, "None"@) == spec_walk_in_order(
                chain.skip(k as int),
                prev_hash@,
            ),
        decreases blocks@.len() - k,
    {
        let block = &blocks[k];
        proof {
            assert(chain.skip(k as int)[0] == block@);
            assert(chain.skip(k as int).drop_first() =~= chain.skip(k + 1));
        }
        if !text_eq(block.get_pre_block_hash().as_str(), prev_hash.as_str()) {
            return Ok(false);
        }
        if !ProofOfWork::validate(block) {
            return Ok(false);
        }
        match block.verify_merkle_root() {
            Ok(true) => {},
            Ok(false) => { return Ok(false); },
            Err(e) => { return Err(e); },
        }
        prev_hash = owned(block.get_hash());
        k += 1;
    }
    Ok(true)
}

/// Whether `block` is a block of a fork: mined at difficulty 1 on `parent`
/// at `height`, with one coinbase that pays the block reward to `miner`.
pub open spec fn spec_fork_block(
    block: BlockModel,
    parent: Seq<char>,
    height: int,
    miner: Seq<char>,
    extranonce: Seq<u8>,
) -> bool {
    &&& spec_mined(block)
    &&& height <= usize::MAX
    &&& spec_built_from(
        block,
        parent,
        seq![spec_coinbase(INITIAL_BLOCK_REWARD, spec_address_key_hash(miner)->Some_0, extranonce)],
        height as usize,
        1,
        block.timestamp,
    )
}

/// Whether `blocks` are a fork on `parent`: each is a block of a fork on the
/// one before it, the first on `parent`, at heights that rise by one from
/// `first_height`.
pub open spec fn spec_fork(
    blocks: Seq<BlockModel>,
    parent: Seq<char>,
    first_height: int,
    miner: Seq<char>,
) -> bool {
    forall|i: int|
        0 <= i < blocks.len() ==> #[trigger] spec_fork_at(blocks, parent, first_height, miner, i)
}

/// Whether block `i` is a block of the fork, for some extranonce of its
/// coinbase.
pub open spec fn spec_fork_at(
    blocks: Seq<BlockModel>,
    parent: Seq<char>,
    first_height: int,
    miner: Seq<char>,
    i: int,
) -> bool {
    exists|extranonce: Seq<u8>| #[trigger]
        spec_fork_block(
            blocks[i],
            spec_fork_parent(blocks, parent, i),
            first_height + i,
            miner,
            extranonce,
        )
}

/// The hash that block `i` of a fork on `parent` is built on.
pub open spec fn spec_fork_parent(blocks: Seq<BlockModel>, parent: Seq<char>, i: int) -> Seq<char> {
    if i == 0 {
        parent
    } else {
        blocks[i - 1].hash
    }
}

/// Whether a block of a fork cannot be made on `on` at `height` with an
/// extranonce of sixteen bytes and a time of the clock: its coinbase breaks
/// the bounds, or the mined block does not fit.
pub open spec fn spec_fork_block_fails(
    on: Seq<char>,
    miner: Seq<char>,
    height: usize,
    extranonce: Seq<u8>,
    timestamp: i64,
) -> bool {
    let coinbase = spec_coinbase(
        INITIAL_BLOCK_REWARD,
        spec_address_key_hash(miner)->Some_0,
        extranonce,
    );
    extranonce.len() == 16 && timestamp >= 0 && (!spec_within_bounds(seq![coinbase])
        || !spec_mined_block(on, seq![coinbase], height, 1, timestamp).fits())
}

/// Blocks of a fork: `fork_length` blocks of difficulty 1, each with one
/// coinbase for `miner_address`, on top of the block that the walk from the
/// tip reaches after `best height - fork_point` steps. No blocks where the
/// best height is not above `fork_point`, or the walk is shorter than that.
/// `Database` where the store does not hold the tip, `InvalidAddress` where
/// blocks are asked for and the miner's address is not valid.
pub fn create_fork_scenario(
    blockchain: &Blockchain,
    fork_point: usize,
    fork_length: usize,
    miner_address: &str,
) -> (out: Result<Vec<Block>, BlockchainError>)
    ensures
        match blockchain@.best_height() {
            None => out is Err && out->Err_0 is Database,
            Some(best) => if best <= fork_point || best - fork_point
                > blockchain@.main_chain().len() {
                out is Ok && out->Ok_0@.len() == 0
            } else if fork_length > 0 && !spec_validate_address(miner_address@) {
                out is Err && out->Err_0 is InvalidAddress
            } else {
                &&& out is Err ==> out->Err_0 is InvalidBlock || out->Err_0 is Crypto
                &&& out is Err && out->Err_0 is InvalidBlock ==> fork_point + fork_length
                    > usize::MAX || exists|
                    on: Seq<char>,
                    height: usize,
                    extranonce: Seq<u8>,
                    timestamp: i64,
                | #[trigger] spec_fork_block_fails(
                        on,
                        miner_address@,
                        height,
                        extranonce,
                        timestamp,
                    )
                &&& out is Ok ==> out->Ok_0@.len() == fork_length && spec_fork(
                    block_models(out->Ok_0@),
                    blockchain@.main_chain()[best - fork_point - 1].hash,
                    fork_point + 1,
                    miner_address@,
                )
            },
        },
{
    let mut fork_blocks: Vec<Block> = Vec::new();
    let best = match blockchain.get_best_height() {
        Ok(height) => height,
        Err(e) => { return Err(e); },
    };
    if best <= fork_point {
        return Ok(fork_blocks);
    }
    let steps = best - fork_point;
    let chain = blockchain.main_chain_blocks();
    if steps > chain.len() {
        return Ok(fork_blocks);
    }
    let ghost parent = blockchain@.main_chain()[steps - 1].hash;
    assert(chain@[steps - 1]@ == block_models(chain@)[steps - 1]);
    let mut prev_hash = owned(chain[steps - 1].get_hash());
    let mut i: usize = 0;
    while i < fork_length
        invariant
            i <= fork_length,
            fork_blocks@.len() == i,
            blockchain@.best_height() == Some(best),
            best > fork_point,
            steps == best - fork_point,
            steps <= blockchain@.main_chain().len(),
            parent == blockchain@.main_chain()[steps - 1].hash,
            i > 0 ==> spec_validate_address(miner_address@),
            fork_point + i <= usize::MAX,
            prev_hash@ == (if i == 0 {
                parent
            } else {
                fork_blocks@[i - 1]@.hash
            }),
            spec_fork(block_models(fork_blocks@), parent, fork_point + 1, miner_address@),
        decreases fork_length - i,
    {
        let coinbase_tx = match Transaction::new_coinbase_tx(miner_address) {
            Ok(tx) => tx,
            Err(e) => { return Err(e); },
        };
        let mut transactions: Vec<Transaction> = Vec::new();
        transactions.push(coinbase_tx);
        let height = match fork_point.checked_add(i) {
            Some(h) => match h.checked_add(1) {
                Some(h) => h,
                None => {
                    return Err(BlockchainError::InvalidBlock(owned("Height out of range")));
                },
            },
            None => {
                return Err(BlockchainError::InvalidBlock(owned("Height out of range")));
            },
        };
        let ghost before = block_models(fork_blocks@);
        let ghost on = prev_hash@;
        assert(transaction_models(transactions@) =~= seq![coinbase_tx@]);
        let made = Block::new_block(prev_hash, transactions.as_slice(), height, 1);
        let block = match made {
            Ok(block) => block,
            Err(e) => {
                proof {
                    if e is InvalidBlock {
                        let extranonce = choose|extranonce: Seq<u8>|
                            extranonce.len() == 16 && coinbase_tx@ == spec_coinbase(
                                INITIAL_BLOCK_REWARD,
                                spec_address_key_hash(miner_address@)->Some_0,
                                extranonce,
                            );
                        if !spec_within_bounds(seq![coinbase_tx@]) {
                            assert(spec_fork_block_fails(
                                on,
                                miner_address@,
                                height,
                                extranonce,
                                0,
                            ));
                        } else {
                            let timestamp = choose|timestamp: i64|
                                timestamp >= 0 && !(#[trigger] spec_mined_block(
                                    on,
                                    seq![coinbase_tx@],
                                    height,
                                    1,
                                    timestamp,
                                )).fits();
                            assert(spec_fork_block_fails(
                                on,
                                miner_address@,
                                height,
                                extranonce,
                                timestamp,
                            ));
                        }
                    }
                }
                return Err(e);
            },
        };
        prev_hash = owned(block.get_hash());
        fork_blocks.push(block);
        proof {
            let after = block_models(fork_blocks@);
            assert(after =~= before.push(block@));
            let extranonce = choose|extranonce: Seq<u8>|
                extranonce.len() == 16 && coinbase_tx@ == spec_coinbase(
                    INITIAL_BLOCK_REWARD,
                    spec_address_key_hash(miner_address@)->Some_0,
                    extranonce,
                );
            assert(spec_fork_block(block@, on, fork_point + 1 + i, miner_address@, extranonce));
            assert forall|k: int| 0 <= k < after.len() implies #[trigger] spec_fork_at(
                after,
                parent,
                fork_point + 1,
                miner_address@,
                k,
            ) by {
                if k < i {
                    assert(spec_fork_at(before, parent, fork_point + 1, miner_address@, k));
                    assert(after[k] == before[k]);
                    if k > 0 {
                        assert(after[k - 1] == before[k - 1]);
                    }
                    let earlier = choose|extranonce: Seq<u8>| #[trigger]
                        spec_fork_block(
                            before[k],
                            spec_fork_parent(before, parent, k),
                            fork_point + 1 + k,
                            miner_address@,
                            extranonce,
                        );
                    assert(spec_fork_block(
                        after[k],
                        spec_fork_parent(after, parent, k),
                        fork_point + 1 + k,
                        miner_address@,
                        earlier,
                    ));
                } else {
                    assert(after[k] == block@);
                    if k > 0 {
                        assert(after[k - 1] == before[k - 1]);
                    }
                    assert(spec_fork_parent(after, parent, k) == on);
                    assert(spec_fork_block(
                        after[k],
                        spec_fork_parent(after, parent, k),
                        fork_point + 1 + k,
                        miner_address@,
                        extranonce,
                    ));
                }
            }
        }
        i += 1;
    }
    Ok(fork_blocks)
}

} // verus!
