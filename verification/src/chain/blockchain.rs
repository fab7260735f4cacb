//! The chain service: the block store, the tip, and everything that is
//! decided by walking from the tip back to the first block.

use crate::chain::block::{block_models, spec_genesis_block, spec_mined_block, Block, BlockModel};
use crate::chain::difficulty::{
    spec_next_difficulty, spec_next_difficulty_defined, DifficultyAdjustment,
    DIFFICULTY_ADJUSTMENT_PERIOD, INITIAL_DIFFICULTY,
};
use crate::chain::transaction::{
    bytes_eq, copy_outputs, output_models, transaction_models, OutputModel, TXOutput, Transaction,
    TransactionModel,
};
use crate::error::{double_spend_error, owned, spec_reports_double_spend, BlockchainError};
use crate::utils::crypto::hex_encode;
use vstd::prelude::*;

verus! {

/// Whether two texts are the same.
pub fn text_eq(a: &str, b: &str) -> (same: bool)
    ensures
        same == (a@ == b@),
{
    proof {
        vstd::utf8::encode_utf8_decode_utf8(a@);
        vstd::utf8::encode_utf8_decode_utf8(b@);
    }
    bytes_eq(a.as_bytes(), b.as_bytes())
}

/// What a record of the UTXO index is: the outputs of one transaction that
/// are left.
pub struct RecordModel {
    pub txid: Seq<u8>,
    pub outputs: Seq<OutputModel>,
}

/// A record of the UTXO index.
pub struct UtxoRecord {
    /// Identifier of the transaction.
    pub txid: Vec<u8>,
    /// The outputs that are left, in order.
    pub outputs: Vec<TXOutput>,
}

impl View for UtxoRecord {
    type V = RecordModel;

    open spec fn view(&self) -> RecordModel {
        RecordModel { txid: self.txid@, outputs: output_models(self.outputs@) }
    }
}

impl Clone for UtxoRecord {
    fn clone(&self) -> (out: Self)
        ensures
            out@ == self@,
    {
        UtxoRecord { txid: self.txid.clone(), outputs: copy_outputs(self.outputs.as_slice()) }
    }
}

/// The models of a list of records.
pub open spec fn record_models(records: Seq<UtxoRecord>) -> Seq<RecordModel> {
    records.map_values(|r: UtxoRecord| r@)
}

/// Whether `i` is the place of the first block with `hash`.
pub open spec fn spec_first_block_at(blocks: Seq<BlockModel>, hash: Seq<char>, i: int) -> bool {
    &&& 0 <= i < blocks.len()
    &&& blocks[i].hash == hash
    &&& forall|j: int| 0 <= j < i ==> (#[trigger] blocks[j]).hash != hash
}

/// Whether no block has `hash`.
pub open spec fn spec_block_absent(blocks: Seq<BlockModel>, hash: Seq<char>) -> bool {
    forall|j: int| 0 <= j < blocks.len() ==> (#[trigger] blocks[j]).hash != hash
}

/// The place of the first block with `hash`.
pub open spec fn spec_block_index(blocks: Seq<BlockModel>, hash: Seq<char>) -> int {
    choose|i: int| spec_first_block_at(blocks, hash, i)
}

/// The block that the store holds under `hash`.
pub open spec fn spec_get_block(blocks: Seq<BlockModel>, hash: Seq<char>) -> Option<BlockModel> {
    if spec_block_absent(blocks, hash) {
        None
    } else {
        Some(blocks[spec_block_index(blocks, hash)])
    }
}

/// The store after `block` is put under its hash: it takes the place of the
/// block that was there, or comes last.
pub open spec fn spec_put_block(blocks: Seq<BlockModel>, block: BlockModel) -> Seq<BlockModel> {
    if spec_block_absent(blocks, block.hash) {
        blocks.push(block)
    } else {
        blocks.update(spec_block_index(blocks, block.hash), block)
    }
}

/// The store after the block under `hash` is taken out.
pub open spec fn spec_remove_block(blocks: Seq<BlockModel>, hash: Seq<char>) -> Seq<BlockModel> {
    if spec_block_absent(blocks, hash) {
        blocks
    } else {
        blocks.remove(spec_block_index(blocks, hash))
    }
}

/// A found place is the place of the first block with the hash.
pub proof fn lemma_block_index(blocks: Seq<BlockModel>, hash: Seq<char>, i: int)
    requires
        spec_first_block_at(blocks, hash, i),
    ensures
        !spec_block_absent(blocks, hash),
        spec_block_index(blocks, hash) == i,
        spec_get_block(blocks, hash) == Some(blocks[i]),
{
    let k = spec_block_index(blocks, hash);
    assert(spec_first_block_at(blocks, hash, k));
    if k < i {
        assert(blocks[k].hash != hash);
    }
    if i < k {
        assert(blocks[i].hash != hash);
    }
}

/// Before a block with `hash` at `k` there is a first block with `hash`.
proof fn lemma_first_before(blocks: Seq<BlockModel>, hash: Seq<char>, k: int) -> (i: int)
    requires
        0 <= k < blocks.len(),
        blocks[k].hash == hash,
    ensures
        spec_first_block_at(blocks, hash, i),
        i <= k,
    decreases k,
{
    if exists|j: int| 0 <= j < k && (#[trigger] blocks[j]).hash == hash {
        let j = choose|j: int| 0 <= j < k && (#[trigger] blocks[j]).hash == hash;
        lemma_first_before(blocks, hash, j)
    } else {
        k
    }
}

/// Where some block has `hash`, the place of the first one is what
/// `spec_block_index` names.
pub proof fn lemma_block_present(blocks: Seq<BlockModel>, hash: Seq<char>)
    requires
        !spec_block_absent(blocks, hash),
    ensures
        spec_first_block_at(blocks, hash, spec_block_index(blocks, hash)),
{
    let k = choose|k: int| 0 <= k < blocks.len() && (#[trigger] blocks[k]).hash == hash;
    let i = lemma_first_before(blocks, hash, k);
}

/// The blocks from the one under `hash` back along the parent hashes, at
/// most `fuel` of them: the walk ends where a hash is not in the store.
pub open spec fn spec_walk(blocks: Seq<BlockModel>, hash: Seq<char>, fuel: nat) -> Seq<BlockModel>
    decreases fuel,
{
    if fuel == 0 {
        Seq::empty()
    } else {
        match spec_get_block(blocks, hash) {
            None => Seq::empty(),
            Some(block) => seq![block] + spec_walk(blocks, block.pre_block_hash, (fuel - 1) as nat),
        }
    }
}

/// The main chain of a store with the given tip, newest block first. A walk
/// visits no more blocks than the store holds.
pub open spec fn spec_main_chain(blocks: Seq<BlockModel>, tip: Seq<char>) -> Seq<BlockModel> {
    spec_walk(blocks, tip, blocks.len())
}

/// What a chain is: the tip, the blocks of the store in the order in which
/// they came, and the records of the UTXO index.
pub struct ChainModel {
    pub tip: Seq<char>,
    pub blocks: Seq<BlockModel>,
    pub chainstate: Seq<RecordModel>,
}

impl ChainModel {
    /// The main chain, newest block first.
    pub open spec fn main_chain(self) -> Seq<BlockModel> {
        spec_main_chain(self.blocks, self.tip)
    }

    /// The height of the tip, where the store holds the tip.
    pub open spec fn best_height(self) -> Option<usize> {
        match spec_get_block(self.blocks, self.tip) {
            Some(block) => Some(block.height),
            None => None,
        }
    }
}

/// What the durable store holds: the tip, where there is one, the blocks and
/// the records of the UTXO index.
pub struct ChainStore {
    pub tip: Option<String>,
    pub blocks: Vec<Block>,
    pub chainstate: Vec<UtxoRecord>,
}

/// The chain: the tip and the store.
pub struct Blockchain {
    tip_hash: String,
    blocks: Vec<Block>,
    chainstate: Vec<UtxoRecord>,
    db_path: String,
}

impl View for Blockchain {
    type V = ChainModel;

    closed spec fn view(&self) -> ChainModel {
        ChainModel {
            tip: self.tip_hash@,
            blocks: block_models(self.blocks@),
            chainstate: record_models(self.chainstate@),
        }
    }
}

/// A copy of a list of blocks.
pub fn copy_blocks(blocks: &[Block]) -> (out: Vec<Block>)
    ensures
        block_models(out@) == block_models(blocks@),
        out@.len() == blocks@.len(),
{
    let mut out: Vec<Block> = Vec::new();
    let mut i: usize = 0;
    while i < blocks.len()
        invariant
            i <= blocks@.len(),
            out@.len() == i,
            forall|k: int| 0 <= k < i ==> (#[trigger] out@[k])@ == blocks@[k]@,
        decreases blocks@.len() - i,
    {
        out.push(blocks[i].clone());
        i += 1;
    }
    assert(block_models(out@) =~= block_models(blocks@));
    out
}

/// A copy of a list of records.
pub fn copy_records(records: &[UtxoRecord]) -> (out: Vec<UtxoRecord>)
    ensures
        record_models(out@) == record_models(records@),
        out@.len() == records@.len(),
{
    let mut out: Vec<UtxoRecord> = Vec::new();
    let mut i: usize = 0;
    while i < records.len()
        invariant
            i <= records@.len(),
            out@.len() == i,
            forall|k: int| 0 <= k < i ==> (#[trigger] out@[k])@ == records@[k]@,
        decreases records@.len() - i,
    {
        out.push(records[i].clone());
        i += 1;
    }
    assert(record_models(out@) =~= record_models(records@));
    out
}

impl Clone for Blockchain {
    fn clone(&self) -> (out: Self)
        ensures
            out@ == self@,
            out.spec_db_path() == self.spec_db_path(),
    {
        Blockchain {
            tip_hash: self.tip_hash.clone(),
            blocks: copy_blocks(self.blocks.as_slice()),
            chainstate: copy_records(self.chainstate.as_slice()),
            db_path: self.db_path.clone(),
        }
    }
}

/// A walk over the main chain, newest block first.
pub struct BlockchainIterator {
    chain: Vec<Block>,
    position: usize,
}

impl BlockchainIterator {
    /// The blocks that are still to come.
    pub closed spec fn spec_remaining(&self) -> Seq<BlockModel> {
        block_models(self.chain@).skip(self.position as int)
    }

    #[verifier::type_invariant]
    closed spec fn wf(&self) -> bool {
        self.position <= self.chain@.len()
    }

    /// The next block of the walk, or `None` at its end.
    pub fn next(&mut self) -> (out: Option<Block>)
        ensures
            old(self).spec_remaining().len() == 0 ==> out is None && final(self).spec_remaining()
                == old(self).spec_remaining(),
            old(self).spec_remaining().len() > 0 ==> out is Some && out->Some_0@ == old(self).spec_remaining()[0] && final(self).spec_remaining() == old(self).spec_remaining().drop_first(),
    {
        proof {
            use_type_invariant(&*self);
        }
        if self.position >= self.chain.len() {
            return None;
        }
        let block = self.chain[self.position].clone();
        proof {
            let all = block_models(self.chain@);
            assert(all.skip(self.position as int)[0] == all[self.position as int]);
            assert(all.skip(self.position as int).drop_first() =~= all.skip(self.position + 1));
        }
        self.position = self.position + 1;
        Some(block)
    }
}


/// What the making of a chain leaves in a store without a tip: a first
/// block, mined at the first difficulty, at height 0 and without a parent,
/// whose one transaction is a coinbase that pays the block reward to the
/// address; the block is put into the store and is the tip.
pub open spec fn spec_created(
    blocks: Seq<BlockModel>,
    chainstate: Seq<RecordModel>,
    chain: ChainModel,
    genesis_address: Seq<char>,
) -> bool {
    let genesis = spec_get_block(chain.blocks, chain.tip);
    &&& genesis is Some
    &&& chain.blocks == spec_put_block(blocks, genesis->Some_0)
    &&& chain.chainstate == chainstate
    &&& genesis->Some_0.pre_block_hash == "None"@
    &&& genesis->Some_0.height == 0
    &&& genesis->Some_0.difficulty == INITIAL_DIFFICULTY
    &&& genesis->Some_0.transactions.len() == 1
    &&& genesis->Some_0.merkle_in_order()
    &&& crate::chain::block::spec_mined(genesis->Some_0)
    &&& exists|extranonce: Seq<u8>|
        genesis->Some_0.transactions[0] == crate::chain::transaction::spec_coinbase(
            crate::chain::monetary::INITIAL_BLOCK_REWARD,
            crate::wallet::wallet::spec_address_key_hash(genesis_address)->Some_0,
            extranonce,
        )
}

/// The coinbase of the first block for an address and an extranonce.
pub open spec fn spec_first_coinbase(genesis_address: Seq<char>, extranonce: Seq<u8>)
    -> TransactionModel {
    crate::chain::transaction::spec_coinbase(
        crate::chain::monetary::INITIAL_BLOCK_REWARD,
        crate::wallet::wallet::spec_address_key_hash(genesis_address)->Some_0,
        extranonce,
    )
}

/// Whether the first block for an address can be made with an extranonce
/// and a timestamp: its coinbase keeps the bounds, and the mined block
/// fits, which is to say that a nonce passes and the encoded block is no
/// larger than 1 MiB.
pub open spec fn spec_first_block_fits(
    genesis_address: Seq<char>,
    extranonce: Seq<u8>,
    timestamp: i64,
) -> bool {
    crate::chain::block::spec_within_bounds(
        seq![spec_first_coinbase(genesis_address, extranonce)],
    ) && spec_genesis_block(
        spec_first_coinbase(genesis_address, extranonce),
        timestamp,
    ).fits()
}

/// What the making of a chain with an extranonce and a timestamp leaves in
/// a store without a tip: the first block that these give, which fits and
/// is mined from the one coinbase, is put into the store and is the tip.
pub open spec fn spec_created_with(
    blocks: Seq<BlockModel>,
    chainstate: Seq<RecordModel>,
    chain: ChainModel,
    genesis_address: Seq<char>,
    extranonce: Seq<u8>,
    timestamp: i64,
) -> bool {
    let coinbase = spec_first_coinbase(genesis_address, extranonce);
    let genesis = spec_genesis_block(coinbase, timestamp);
    &&& spec_first_block_fits(genesis_address, extranonce, timestamp)
    &&& crate::chain::block::spec_mined(genesis)
    &&& crate::chain::block::spec_built_from(genesis, "None"@, seq![coinbase], 0, 4, timestamp)
    &&& chain.tip == genesis.hash
    &&& chain.blocks == spec_put_block(blocks, genesis)
    &&& chain.chainstate == chainstate
}

impl Blockchain {
    /// The place of the first block with `hash` in the store.
    fn find_block_index(&self, hash: &str) -> (out: Option<usize>)
        ensures
            match out {
                Some(i) => spec_first_block_at(self@.blocks, hash@, i as int),
                None => spec_block_absent(self@.blocks, hash@),
            },
            out is Some <==> spec_get_block(self@.blocks, hash@) is Some,
            out is Some ==> out->Some_0 < self.blocks@.len() && spec_get_block(self@.blocks, hash@)
                == Some(self.blocks@[out->Some_0 as int]@),
    {
        let mut i: usize = 0;
        while i < self.blocks.len()
            invariant
                i <= self.blocks@.len(),
                forall|j: int| 0 <= j < i ==> (#[trigger] self@.blocks[j]).hash != hash@,
            decreases self.blocks@.len() - i,
        {
            if text_eq(self.blocks[i].get_hash(), hash) {
                proof {
                    assert(self@.blocks[i as int] == self.blocks@[i as int]@);
                    lemma_block_index(self@.blocks, hash@, i as int);
                }
                return Some(i);
            }
            assert(self@.blocks[i as int] == self.blocks@[i as int]@);
            i += 1;
        }
        None
    }

    /// Puts `block` into the store under its hash.
    fn put_block(&mut self, block: Block)
        ensures
            final(self).spec_db_path() == old(self).spec_db_path(),
            final(self)@.blocks == spec_put_block(old(self)@.blocks, block@),
            final(self)@.tip == old(self)@.tip,
            final(self)@.chainstate == old(self)@.chainstate,
    {
        match self.find_block_index(block.get_hash()) {
            Some(i) => {
                self.blocks.set(i, block);
                assert(self@.blocks =~= old(self)@.blocks.update(i as int, block@));
            },
            None => {
                self.blocks.push(block);
                assert(self@.blocks =~= old(self)@.blocks.push(block@));
            },
        }
    }

    /// The chain that a store holds. Where the store has a tip, the chain is
    /// the store as it is; where it has none, the first block is made for
    /// `genesis_address` with a fresh extranonce and the time of the clock,
    /// put into the store and made the tip. `InvalidAddress` for an address
    /// that is not valid, `Crypto` where the clock fails, `InvalidBlock`
    /// where the first block cannot be made; see `create_blockchain_with`.
    pub fn create_blockchain_with_path(genesis_address: &str, db_path: &str, store: ChainStore)
        -> (out: Result<Blockchain, BlockchainError>)
        ensures
            out is Ok ==> out->Ok_0.spec_db_path() == db_path@,
            store.tip is Some ==> out is Ok && out->Ok_0@ == (ChainModel {
                tip: store.tip->Some_0@,
                blocks: block_models(store.blocks@),
                chainstate: record_models(store.chainstate@),
            }),
            store.tip is None && !crate::wallet::wallet::spec_validate_address(genesis_address@)
                ==> out is Err && out->Err_0 is InvalidAddress,
            crate::wallet::wallet::spec_validate_address(genesis_address@) && out is Err
                ==> out->Err_0 is InvalidBlock || out->Err_0 is Crypto,
            out is Err && out->Err_0 is InvalidBlock ==> exists|extranonce: Seq<u8>, timestamp: i64|
                extranonce.len() == 16 && timestamp >= 0 && !#[trigger] spec_first_block_fits(
                    genesis_address@,
                    extranonce,
                    timestamp,
                ),
            store.tip is None && out is Ok ==> spec_created(
                block_models(store.blocks@),
                record_models(store.chainstate@),
                out->Ok_0@,
                genesis_address@,
            ) && exists|extranonce: Seq<u8>, timestamp: i64|
                extranonce.len() == 16 && timestamp >= 0 && #[trigger] spec_created_with(
                    block_models(store.blocks@),
                    record_models(store.chainstate@),
                    out->Ok_0@,
                    genesis_address@,
                    extranonce,
                    timestamp,
                ),
    {
        let ChainStore { tip, blocks, chainstate } = store;
        match tip {
            Some(tip_hash) => Ok(Blockchain { tip_hash, blocks, chainstate, db_path: owned(db_path) }),
            None => {
                let extranonce = crate::chain::transaction::fresh_extranonce();
                let ghost nonce = extranonce@;
                let coinbase_tx = match Transaction::new_coinbase_tx_with_extranonce(
                    genesis_address,
                    crate::chain::monetary::INITIAL_BLOCK_REWARD,
                    extranonce,
                ) {
                    Ok(tx) => tx,
                    Err(e) => { return Err(e); },
                };
                let block = match Block::generate_genesis_block(&coinbase_tx) {
                    Ok(block) => block,
                    Err(e) => {
                        proof {
                            if e is InvalidBlock {
                                if !crate::chain::block::spec_within_bounds(seq![coinbase_tx@]) {
                                    assert(!spec_first_block_fits(genesis_address@, nonce, 0));
                                } else {
                                    let timestamp = choose|timestamp: i64|
                                        timestamp >= 0 && !(#[trigger] spec_genesis_block(
                                            coinbase_tx@,
                                            timestamp,
                                        )).fits();
                                    assert(!spec_first_block_fits(
                                        genesis_address@,
                                        nonce,
                                        timestamp,
                                    ));
                                }
                            }
                        }
                        return Err(e);
                    },
                };
                let tip_hash = owned(block.get_hash());
                let mut chain = Blockchain { tip_hash, blocks, chainstate, db_path: owned(db_path) };
                let ghost before = chain@.blocks;
                chain.put_block(block);
                proof {
                    lemma_put_then_get(before, block@);
                    assert(spec_created_with(
                        before,
                        chain@.chainstate,
                        chain@,
                        genesis_address@,
                        nonce,
                        block@.timestamp,
                    ));
                }
                Ok(chain)
            },
        }
    }

    /// The chain that a store holds, the first block made with the given
    /// extranonce and timestamp where the store has no tip. `InvalidAddress`
    /// for an address that is not valid; else `InvalidBlock` exactly where
    /// the first block does not fit.
    pub fn create_blockchain_with(
        genesis_address: &str,
        db_path: &str,
        store: ChainStore,
        extranonce: Vec<u8>,
        timestamp: i64,
    ) -> (out: Result<Blockchain, BlockchainError>)
        ensures
            out is Ok ==> out->Ok_0.spec_db_path() == db_path@,
            store.tip is Some ==> out is Ok && out->Ok_0@ == (ChainModel {
                tip: store.tip->Some_0@,
                blocks: block_models(store.blocks@),
                chainstate: record_models(store.chainstate@),
            }),
            store.tip is None ==> (if !crate::wallet::wallet::spec_validate_address(
                genesis_address@,
            ) {
                out is Err && out->Err_0 is InvalidAddress
            } else if !spec_first_block_fits(genesis_address@, extranonce@, timestamp) {
                out is Err && out->Err_0 is InvalidBlock
            } else {
                out is Ok && spec_created_with(
                    block_models(store.blocks@),
                    record_models(store.chainstate@),
                    out->Ok_0@,
                    genesis_address@,
                    extranonce@,
                    timestamp,
                )
            }),
    {
        let ChainStore { tip, blocks, chainstate } = store;
        match tip {
            Some(tip_hash) => Ok(Blockchain { tip_hash, blocks, chainstate, db_path: owned(db_path) }),
            None => {
                let coinbase_tx = match Transaction::new_coinbase_tx_with_extranonce(
                    genesis_address,
                    crate::chain::monetary::INITIAL_BLOCK_REWARD,
                    extranonce,
                ) {
                    Ok(tx) => tx,
                    Err(e) => { return Err(e); },
                };
                let block = match Block::generate_genesis_block_at(&coinbase_tx, timestamp) {
                    Ok(block) => block,
                    Err(e) => { return Err(e); },
                };
                let tip_hash = owned(block.get_hash());
                let mut chain = Blockchain { tip_hash, blocks, chainstate, db_path: owned(db_path) };
                let ghost before = chain@.blocks;
                chain.put_block(block);
                proof {
                    lemma_put_then_get(before, block@);
                }
                Ok(chain)
            },
        }
    }

    /// The chain that a store holds; `Database` where the store has no tip.
    pub fn new_blockchain_with_path(db_path: &str, store: ChainStore) -> (out: Result<
        Blockchain,
        BlockchainError,
    >)
        ensures
            out is Ok ==> out->Ok_0.spec_db_path() == db_path@,
            store.tip is None ==> out is Err && out->Err_0 is Database,
            store.tip is Some ==> out is Ok && out->Ok_0@ == (ChainModel {
                tip: store.tip->Some_0@,
                blocks: block_models(store.blocks@),
                chainstate: record_models(store.chainstate@),
            }),
    {
        let ChainStore { tip, blocks, chainstate } = store;
        match tip {
            Some(tip_hash) => Ok(Blockchain { tip_hash, blocks, chainstate, db_path: owned(db_path) }),
            None => Err(
                BlockchainError::Database(owned("No existing blockchain found. Create one first.")),
            ),
        }
    }

    /// What the chain holds, to be written to the durable store.
    pub fn into_store(self) -> (store: ChainStore)
        ensures
            store.tip is Some,
            store.tip->Some_0@ == self@.tip,
            block_models(store.blocks@) == self@.blocks,
            record_models(store.chainstate@) == self@.chainstate,
    {
        ChainStore { tip: Some(self.tip_hash), blocks: self.blocks, chainstate: self.chainstate }
    }

    /// The path of the durable store.
    pub closed spec fn spec_db_path(&self) -> Seq<char> {
        self.db_path@
    }

    /// The path of the durable store.
    pub fn get_db_path(&self) -> (out: &String)
        ensures
            out@ == self.spec_db_path(),
    {
        &self.db_path
    }

    /// The hash of the tip.
    pub fn get_tip_hash(&self) -> (out: String)
        ensures
            out@ == self@.tip,
    {
        self.tip_hash.clone()
    }

    /// Makes `new_tip_hash` the tip and leaves the store as it is.
    pub fn set_tip_hash(&mut self, new_tip_hash: &str)
        ensures
            final(self).spec_db_path() == old(self).spec_db_path(),
            final(self)@ == (ChainModel { tip: new_tip_hash@, ..old(self)@ }),
    {
        self.tip_hash = owned(new_tip_hash);
    }

    /// The places in the store of the blocks of the main chain, newest first.
    fn chain_indices(&self) -> (out: Vec<usize>)
        ensures
            out@.len() == self@.main_chain().len(),
            forall|k: int|
                0 <= k < out@.len() ==> (#[trigger] out@[k]) < self.blocks@.len()
                    && self.blocks@[out@[k] as int]@ == self@.main_chain()[k],
    {
        let mut out: Vec<usize> = Vec::new();
        let mut current = self.tip_hash.clone();
        let mut fuel: usize = self.blocks.len();
        let ghost blocks = self@.blocks;
        let ghost chain = self@.main_chain();
        let ghost mut visited: Seq<BlockModel> = Seq::empty();
        assert(visited + spec_walk(blocks, current@, fuel as nat) =~= chain);
        while fuel > 0
            invariant_except_break
                visited + spec_walk(blocks, current@, fuel as nat) == chain,
            invariant
                blocks == self@.blocks,
                chain == self@.main_chain(),
                out@.len() == visited.len(),
                forall|k: int|
                    0 <= k < out@.len() ==> (#[trigger] out@[k]) < self.blocks@.len()
                        && self.blocks@[out@[k] as int]@ == visited[k],
            ensures
                visited == chain,
            decreases fuel,
        {
            match self.find_block_index(current.as_str()) {
                Some(i) => {
                    let ghost block = self.blocks@[i as int]@;
                    let next = self.blocks[i].get_pre_block_hash();
                    proof {
                        assert(spec_walk(blocks, current@, fuel as nat) == seq![block] + spec_walk(
                            blocks,
                            block.pre_block_hash,
                            (fuel - 1) as nat,
                        ));
                        assert(visited.push(block) + spec_walk(blocks, next@, (fuel - 1) as nat)
                            =~= visited + (seq![block] + spec_walk(
                            blocks,
                            next@,
                            (fuel - 1) as nat,
                        )));
                        visited = visited.push(block);
                    }
                    out.push(i);
                    current = next;
                    fuel = fuel - 1;
                },
                None => {
                    proof {
                        assert(spec_walk(blocks, current@, fuel as nat) =~= Seq::<
                            BlockModel,
                        >::empty());
                        assert(visited + Seq::<BlockModel>::empty() =~= visited);
                    }
                    break ;
                },
            }
        }
        proof {
            if fuel == 0 {
                assert(spec_walk(blocks, current@, 0) =~= Seq::<BlockModel>::empty());
                assert(visited + Seq::<BlockModel>::empty() =~= visited);
            }
        }
        out
    }

    /// The blocks of the main chain, newest first.
    pub fn main_chain_blocks(&self) -> (out: Vec<Block>)
        ensures
            block_models(out@) == self@.main_chain(),
            out@.len() == self@.main_chain().len(),
    {
        let indices = self.chain_indices();
        let mut out: Vec<Block> = Vec::new();
        let mut k: usize = 0;
        while k < indices.len()
            invariant
                k <= indices@.len(),
                indices@.len() == self@.main_chain().len(),
                out@.len() == k,
                forall|j: int|
                    0 <= j < indices@.len() ==> (#[trigger] indices@[j]) < self.blocks@.len()
                        && self.blocks@[indices@[j] as int]@ == self@.main_chain()[j],
                forall|j: int| 0 <= j < k ==> (#[trigger] out@[j])@ == self@.main_chain()[j],
            decreases indices@.len() - k,
        {
            out.push(self.blocks[indices[k]].clone());
            k += 1;
        }
        assert(block_models(out@) =~= self@.main_chain());
        out
    }

    /// A walk over the main chain as it is now, newest block first.
    pub fn iterator(&self) -> (out: BlockchainIterator)
        ensures
            out.spec_remaining() == self@.main_chain(),
    {
        let chain = self.main_chain_blocks();
        assert(block_models(chain@).skip(0) =~= block_models(chain@));
        BlockchainIterator { chain, position: 0 }
    }

    /// The height of the tip; `Database` where the store does not hold the
    /// tip.
    pub fn get_best_height(&self) -> (out: Result<usize, BlockchainError>)
        ensures
            match self@.best_height() {
                Some(height) => out == Ok::<usize, BlockchainError>(height),
                None => out is Err && out->Err_0 is Database,
            },
    {
        match self.find_block_index(self.tip_hash.as_str()) {
            Some(i) => Ok(self.blocks[i].get_height()),
            None => Err(BlockchainError::Database(owned("Tip hash not found"))),
        }
    }

    /// The block that the store holds under the hash whose UTF-8 bytes are
    /// `block_hash`.
    pub fn get_block_by_bytes(&self, block_hash: &[u8]) -> (out: Result<
        Option<Block>,
        BlockchainError,
    >)
        ensures
            out is Ok,
            out->Ok_0 is Some ==> vstd::utf8::encode_utf8(out->Ok_0->Some_0@.hash) == block_hash@
                && spec_get_block(self@.blocks, out->Ok_0->Some_0@.hash) == Some(
                out->Ok_0->Some_0@,
            ),
            out->Ok_0 is None ==> forall|j: int|
                0 <= j < self@.blocks.len() ==> vstd::utf8::encode_utf8(
                    (#[trigger] self@.blocks[j]).hash,
                ) != block_hash@,
    {
        let mut i: usize = 0;
        while i < self.blocks.len()
            invariant
                i <= self.blocks@.len(),
                forall|j: int|
                    0 <= j < i ==> vstd::utf8::encode_utf8((#[trigger] self@.blocks[j]).hash)
                        != block_hash@,
            decreases self.blocks@.len() - i,
        {
            assert(self@.blocks[i as int] == self.blocks@[i as int]@);
            if bytes_eq(self.blocks[i].get_hash().as_bytes(), block_hash) {
                proof {
                    let hash = self@.blocks[i as int].hash;
                    assert forall|j: int| 0 <= j < i implies (#[trigger] self@.blocks[j]).hash
                        != hash by {
                        if self@.blocks[j].hash == hash {
                            assert(vstd::utf8::encode_utf8(self@.blocks[j].hash) == block_hash@);
                        }
                    }
                    lemma_block_index(self@.blocks, hash, i as int);
                }
                return Ok(Some(self.blocks[i].clone()));
            }
            i += 1;
        }
        Ok(None)
    }

    /// The hashes of the blocks of the main chain as UTF-8 bytes, newest
    /// first.
    pub fn get_block_hashes(&self) -> (out: Vec<Vec<u8>>)
        ensures
            out@.len() == self@.main_chain().len(),
            forall|k: int|
                0 <= k < out@.len() ==> (#[trigger] out@[k])@ == vstd::utf8::encode_utf8(
                    self@.main_chain()[k].hash,
                ),
    {
        let indices = self.chain_indices();
        let mut out: Vec<Vec<u8>> = Vec::new();
        let mut k: usize = 0;
        while k < indices.len()
            invariant
                k <= indices@.len(),
                indices@.len() == self@.main_chain().len(),
                out@.len() == k,
                forall|j: int|
                    0 <= j < indices@.len() ==> (#[trigger] indices@[j]) < self.blocks@.len()
                        && self.blocks@[indices@[j] as int]@ == self@.main_chain()[j],
                forall|j: int|
                    0 <= j < k ==> (#[trigger] out@[j])@ == vstd::utf8::encode_utf8(
                        self@.main_chain()[j].hash,
                    ),
            decreases indices@.len() - k,
        {
            out.push(self.blocks[indices[k]].get_hash_bytes());
            k += 1;
        }
        out
    }

    /// Whether the store holds a block under `block_hash`.
    pub fn block_exists(&self, block_hash: &str) -> (out: Result<bool, BlockchainError>)
        ensures
            out is Ok,
            out->Ok_0 == (spec_get_block(self@.blocks, block_hash@) is Some),
    {
        Ok(self.find_block_index(block_hash).is_some())
    }

    /// The block that the store holds under `block_hash`.
    pub fn get_block(&self, block_hash: &str) -> (out: Result<Option<Block>, BlockchainError>)
        ensures
            out is Ok,
            match spec_get_block(self@.blocks, block_hash@) {
                Some(block) => out->Ok_0 is Some && out->Ok_0->Some_0@ == block,
                None => out->Ok_0 is None,
            },
    {
        match self.find_block_index(block_hash) {
            Some(i) => Ok(Some(self.blocks[i].clone())),
            None => Ok(None),
        }
    }

    /// The height of the block under `block_hash`; `InvalidBlock` where the
    /// store holds none.
    pub fn get_block_height(&self, block_hash: &str) -> (out: Result<usize, BlockchainError>)
        ensures
            match spec_get_block(self@.blocks, block_hash@) {
                Some(block) => out == Ok::<usize, BlockchainError>(block.height),
                None => out is Err && out->Err_0 is InvalidBlock,
            },
    {
        match self.find_block_index(block_hash) {
            Some(i) => Ok(self.blocks[i].get_height()),
            None => Err(BlockchainError::InvalidBlock(owned("Block not found"))),
        }
    }

    /// Whether the walk from the tip meets a block with `block_hash` before
    /// it ends or reaches the parent hash `"None"`.
    pub fn is_in_main_chain(&self, block_hash: &str) -> (out: Result<bool, BlockchainError>)
        ensures
            out is Ok,
            out->Ok_0 == (block_hash@ != "None"@ && exists|k: int|
                0 <= k < self@.main_chain().len() && (#[trigger] self@.main_chain()[k]).hash
                    == block_hash@ && forall|j: int|
                    0 <= j <= k ==> (#[trigger] self@.main_chain()[j]).hash != "None"@),
    {
        let indices = self.chain_indices();
        let none = owned("None");
        let mut k: usize = 0;
        while k < indices.len()
            invariant
                k <= indices@.len(),
                none@ == "None"@,
                indices@.len() == self@.main_chain().len(),
                forall|j: int|
                    0 <= j < indices@.len() ==> (#[trigger] indices@[j]) < self.blocks@.len()
                        && self.blocks@[indices@[j] as int]@ == self@.main_chain()[j],
                forall|j: int|
                    0 <= j < k ==> (#[trigger] self@.main_chain()[j]).hash != block_hash@
                        && self@.main_chain()[j].hash != "None"@,
            decreases indices@.len() - k,
        {
            let block = &self.blocks[indices[k]];
            assert(block@ == self@.main_chain()[k as int]);
            if text_eq(block.get_hash(), none.as_str()) {
                return Ok(false);
            }
            if text_eq(block.get_hash(), block_hash) {
                return Ok(true);
            }
            k += 1;
        }
        Ok(false)
    }

    /// Takes the block under `block_hash` out of the store; where it was the
    /// tip, its parent becomes the tip. `InvalidBlock` where the store holds
    /// no such block, and then nothing changes.
    pub fn remove_block(&mut self, block_hash: &str) -> (out: Result<(), BlockchainError>)
        ensures
            final(self).spec_db_path() == old(self).spec_db_path(),
            match spec_get_block(old(self)@.blocks, block_hash@) {
                Some(block) => out is Ok && final(self)@ == (ChainModel {
                    tip: if old(self)@.tip == block_hash@ {
                        block.pre_block_hash
                    } else {
                        old(self)@.tip
                    },
                    blocks: spec_remove_block(old(self)@.blocks, block_hash@),
                    chainstate: old(self)@.chainstate,
                }),
                None => out is Err && out->Err_0 is InvalidBlock && final(self)@ == old(self)@,
            },
    {
        let i = match self.find_block_index(block_hash) {
            Some(i) => i,
            None => {
                return Err(BlockchainError::InvalidBlock(owned("Cannot remove non-existent block")));
            },
        };
        let block = self.blocks.remove(i);
        assert(self@.blocks =~= old(self)@.blocks.remove(i as int));
        if text_eq(self.tip_hash.as_str(), block_hash) {
            self.tip_hash = block.get_pre_block_hash();
        }
        Ok(())
    }

    /// The newest `count` blocks of the main chain, oldest first.
    pub fn get_recent_blocks(&self, count: usize) -> (out: Result<Vec<Block>, BlockchainError>)
        ensures
            out is Ok,
            block_models(out->Ok_0@) == spec_recent_blocks(self@.main_chain(), count as int),
    {
        let indices = self.chain_indices();
        let take = if count < indices.len() {
            count
        } else {
            indices.len()
        };
        let mut out: Vec<Block> = Vec::new();
        let mut k: usize = 0;
        while k < take
            invariant
                k <= take <= indices@.len(),
                indices@.len() == self@.main_chain().len(),
                out@.len() == k,
                forall|j: int|
                    0 <= j < indices@.len() ==> (#[trigger] indices@[j]) < self.blocks@.len()
                        && self.blocks@[indices@[j] as int]@ == self@.main_chain()[j],
                forall|j: int|
                    0 <= j < k ==> (#[trigger] out@[j])@ == self@.main_chain()[take - 1 - j],
            decreases take - k,
        {
            out.push(self.blocks[indices[take - 1 - k]].clone());
            k += 1;
        }
        assert(block_models(out@) =~= spec_recent_blocks(self@.main_chain(), count as int));
        Ok(out)
    }

    /// The difficulty of a block at `height` on top of the main chain.
    pub fn calculate_next_difficulty(&self, height: usize) -> (out: Result<u32, BlockchainError>)
        ensures
            out is Ok <==> spec_next_difficulty_defined(
                spec_recent_blocks(self@.main_chain(), DIFFICULTY_ADJUSTMENT_PERIOD as int),
                height,
            ),
            out is Ok ==> out->Ok_0 == spec_next_difficulty(
                spec_recent_blocks(self@.main_chain(), DIFFICULTY_ADJUSTMENT_PERIOD as int),
                height,
            ),
            out is Err ==> out->Err_0 is InvalidBlock,
    {
        let recent_blocks = match self.get_recent_blocks(
            DifficultyAdjustment::get_adjustment_period(),
        ) {
            Ok(blocks) => blocks,
            Err(e) => { return Err(e); },
        };
        DifficultyAdjustment::calculate_next_difficulty(recent_blocks.as_slice(), height)
    }
}

/// The newest `count` blocks of a chain that is given newest first, turned
/// round so that the oldest comes first.
pub open spec fn spec_recent_blocks(chain: Seq<BlockModel>, count: int) -> Seq<BlockModel> {
    let take = if count < chain.len() {
        count
    } else {
        chain.len() as int
    };
    Seq::new(take as nat, |j: int| chain[take - 1 - j])
}

/// A block that was put into the store is found under its hash.
pub proof fn lemma_put_then_get(blocks: Seq<BlockModel>, block: BlockModel)
    ensures
        spec_get_block(spec_put_block(blocks, block), block.hash) == Some(block),
{
    let after = spec_put_block(blocks, block);
    if spec_block_absent(blocks, block.hash) {
        let i = blocks.len() as int;
        assert(after[i] == block);
        assert forall|j: int| 0 <= j < i implies (#[trigger] after[j]).hash != block.hash by {
            assert(after[j] == blocks[j]);
        }
        lemma_block_index(after, block.hash, i);
    } else {
        let i = spec_block_index(blocks, block.hash);
        lemma_block_present(blocks, block.hash);
        assert(after[i] == block);
        assert forall|j: int| 0 <= j < i implies (#[trigger] after[j]).hash != block.hash by {
            assert(after[j] == blocks[j]);
        }
        lemma_block_index(after, block.hash, i);
    }
}

} // verus!

verus! {

/// The first transaction of a list with the identifier `txid`.
pub open spec fn spec_find_in_transactions(transactions: Seq<TransactionModel>, txid: Seq<u8>)
    -> Option<TransactionModel>
    decreases transactions.len(),
{
    if transactions.len() == 0 {
        None
    } else if transactions[0].id == txid {
        Some(transactions[0])
    } else {
        spec_find_in_transactions(transactions.drop_first(), txid)
    }
}

/// The first transaction with the identifier `txid` in a chain that is given
/// newest block first.
pub open spec fn spec_find_transaction(chain: Seq<BlockModel>, txid: Seq<u8>) -> Option<
    TransactionModel,
>
    decreases chain.len(),
{
    if chain.len() == 0 {
        None
    } else {
        match spec_find_in_transactions(chain[0].transactions, txid) {
            Some(transaction) => Some(transaction),
            None => spec_find_transaction(chain.drop_first(), txid),
        }
    }
}

/// Whether a transaction that is no coinbase has an input that spends output
/// `vout` of transaction `txid`.
pub open spec fn spec_transaction_spends(transaction: TransactionModel, txid: Seq<u8>, vout: usize)
    -> bool {
    !transaction.is_coinbase() && exists|i: int|
        0 <= i < transaction.vin.len() && (#[trigger] transaction.vin[i]).txid == txid
            && transaction.vin[i].vout == vout
}

/// Whether a transaction of the list spends output `vout` of transaction
/// `txid`.
pub open spec fn spec_any_spends(transactions: Seq<TransactionModel>, txid: Seq<u8>, vout: usize)
    -> bool {
    exists|t: int|
        0 <= t < transactions.len() && spec_transaction_spends(
            #[trigger] transactions[t],
            txid,
            vout,
        )
}

/// Whether a block of the chain spends output `vout` of transaction `txid`.
pub open spec fn spec_is_output_spent(chain: Seq<BlockModel>, txid: Seq<u8>, vout: usize) -> bool {
    exists|b: int|
        0 <= b < chain.len() && spec_any_spends((#[trigger] chain[b]).transactions, txid, vout)
}

/// Whether every input of the transaction names an output that no block of
/// the chain spends, in a transaction that the chain holds. A coinbase has
/// no such inputs.
pub open spec fn spec_inputs_spendable(chain: Seq<BlockModel>, transaction: TransactionModel)
    -> bool {
    transaction.is_coinbase() || forall|i: int|
        0 <= i < transaction.vin.len() ==> !spec_is_output_spent(
            chain,
            (#[trigger] transaction.vin[i]).txid,
            transaction.vin[i].vout,
        ) && spec_find_transaction(chain, transaction.vin[i].txid) is Some
}

/// The pairs of transaction and output index that the inputs of a
/// transaction name.
pub open spec fn spec_input_refs(transaction: TransactionModel) -> Seq<(Seq<u8>, usize)> {
    transaction.vin.map_values(|i: crate::chain::transaction::InputModel| (i.txid, i.vout))
}

/// The outputs that the transactions of a list spend, coinbases left out, in
/// order.
pub open spec fn spec_spent_refs(transactions: Seq<TransactionModel>) -> Seq<(Seq<u8>, usize)>
    decreases transactions.len(),
{
    if transactions.len() == 0 {
        Seq::empty()
    } else {
        spec_spent_refs(transactions.drop_last()) + (if transactions.last().is_coinbase() {
            Seq::empty()
        } else {
            spec_input_refs(transactions.last())
        })
    }
}

/// No output is spent twice by the transactions of the list.
pub open spec fn spec_no_double_spend(transactions: Seq<TransactionModel>) -> bool {
    spec_spent_refs(transactions).no_duplicates()
}

/// The outputs that a prefix spends stand at the front of those that the
/// whole list spends.
pub proof fn lemma_spent_refs_prefix(transactions: Seq<TransactionModel>, k: int)
    requires
        0 <= k <= transactions.len(),
    ensures
        spec_spent_refs(transactions.take(k)).is_prefix_of(spec_spent_refs(transactions)),
    decreases transactions.len(),
{
    if k == transactions.len() {
        assert(transactions.take(k) =~= transactions);
    } else {
        lemma_spent_refs_prefix(transactions.drop_last(), k);
        assert(transactions.drop_last().take(k) =~= transactions.take(k));
    }
}

/// A coinbase in front of a list spends nothing.
pub proof fn lemma_spent_refs_after_coinbase(
    coinbase: TransactionModel,
    transactions: Seq<TransactionModel>,
)
    requires
        coinbase.is_coinbase(),
    ensures
        spec_spent_refs(seq![coinbase] + transactions) == spec_spent_refs(transactions),
    decreases transactions.len(),
{
    let all = seq![coinbase] + transactions;
    if transactions.len() == 0 {
        assert(all.drop_last() =~= Seq::<TransactionModel>::empty());
        assert(spec_spent_refs(all.drop_last()) =~= Seq::<(Seq<u8>, usize)>::empty());
        assert(spec_spent_refs(all) =~= Seq::<(Seq<u8>, usize)>::empty());
    } else {
        lemma_spent_refs_after_coinbase(coinbase, transactions.drop_last());
        assert(all.drop_last() =~= seq![coinbase] + transactions.drop_last());
        assert(all.last() == transactions.last());
    }
}

impl Blockchain {
    /// The first transaction of `transactions` with the identifier `txid`.
    fn find_in_transactions(transactions: &[Transaction], txid: &[u8]) -> (out: Option<usize>)
        ensures
            match out {
                Some(i) => i < transactions@.len() && spec_find_in_transactions(
                    transaction_models(transactions@),
                    txid@,
                ) == Some(transactions@[i as int]@),
                None => spec_find_in_transactions(transaction_models(transactions@), txid@)
                    is None,
            },
    {
        let ghost all = transaction_models(transactions@);
        let mut i: usize = 0;
        assert(all.skip(0) =~= all);
        while i < transactions.len()
            invariant
                i <= transactions@.len(),
                all == transaction_models(transactions@),
                all.len() == transactions@.len(),
                spec_find_in_transactions(all, txid@) == spec_find_in_transactions(
                    all.skip(i as int),
                    txid@,
                ),
            decreases transactions@.len() - i,
        {
            proof {
                assert(all.skip(i as int)[0] == transactions@[i as int]@);
                assert(all.skip(i as int).drop_first() =~= all.skip(i + 1));
            }
            if bytes_eq(transactions[i].get_id(), txid) {
                return Some(i);
            }
            i += 1;
        }
        None
    }

    /// The first transaction of the main chain with the identifier `txid`,
    /// looking from the tip back.
    pub fn find_transaction(&self, txid: &[u8]) -> (out: Option<Transaction>)
        ensures
            match spec_find_transaction(self@.main_chain(), txid@) {
                Some(transaction) => out is Some && out->Some_0@ == transaction,
                None => out is None,
            },
    {
        let indices = self.chain_indices();
        let ghost chain = self@.main_chain();
        let mut k: usize = 0;
        assert(chain.skip(0) =~= chain);
        while k < indices.len()
            invariant
                k <= indices@.len(),
                chain == self@.main_chain(),
                indices@.len() == chain.len(),
                forall|j: int|
                    0 <= j < indices@.len() ==> (#[trigger] indices@[j]) < self.blocks@.len()
                        && self.blocks@[indices@[j] as int]@ == chain[j],
                spec_find_transaction(chain, txid@) == spec_find_transaction(
                    chain.skip(k as int),
                    txid@,
                ),
            decreases indices@.len() - k,
        {
            let block = &self.blocks[indices[k]];
            proof {
                assert(chain.skip(k as int)[0] == block@);
                assert(chain.skip(k as int).drop_first() =~= chain.skip(k + 1));
            }
            let transactions = block.get_transactions();
            match Self::find_in_transactions(transactions, txid) {
                Some(i) => {
                    return Some(transactions[i].clone());
                },
                None => {},
            }
            k += 1;
        }
        None
    }

    /// Whether `transaction` spends output `vout` of transaction `txid`.
    fn transaction_spends(transaction: &Transaction, txid: &[u8], vout: usize) -> (out: bool)
        ensures
            out == spec_transaction_spends(transaction@, txid@, vout),
    {
        if transaction.is_coinbase() {
            return false;
        }
        let inputs = transaction.get_vin();
        let mut i: usize = 0;
        while i < inputs.len()
            invariant
                i <= inputs@.len(),
                inputs@.len() == transaction@.vin.len(),
                !transaction@.is_coinbase(),
                crate::chain::transaction::input_models(inputs@) == transaction@.vin,
                forall|j: int|
                    0 <= j < i ==> !((#[trigger] transaction@.vin[j]).txid == txid@
                        && transaction@.vin[j].vout == vout),
            decreases inputs@.len() - i,
        {
            assert(transaction@.vin[i as int] == inputs@[i as int]@);
            if bytes_eq(inputs[i].get_txid(), txid) && inputs[i].get_vout() == vout {
                return true;
            }
            i += 1;
        }
        false
    }

    /// Whether a transaction of the list spends output `vout` of transaction
    /// `txid`.
    fn any_spends(transactions: &[Transaction], txid: &[u8], vout: usize) -> (out: bool)
        ensures
            out == spec_any_spends(transaction_models(transactions@), txid@, vout),
    {
        let ghost all = transaction_models(transactions@);
        let mut t: usize = 0;
        while t < transactions.len()
            invariant
                t <= transactions@.len(),
                all == transaction_models(transactions@),
                all.len() == transactions@.len(),
                forall|j: int| 0 <= j < t ==> !spec_transaction_spends(#[trigger] all[j], txid@, vout),
            decreases transactions@.len() - t,
        {
            assert(all[t as int] == transactions@[t as int]@);
            if Self::transaction_spends(&transactions[t], txid, vout) {
                return true;
            }
            t += 1;
        }
        false
    }

    /// Whether a block of the main chain spends output `vout` of transaction
    /// `txid`.
    pub fn is_output_spent(&self, txid: &[u8], vout: usize) -> (out: bool)
        ensures
            out == spec_is_output_spent(self@.main_chain(), txid@, vout),
    {
        let indices = self.chain_indices();
        let ghost chain = self@.main_chain();
        let mut k: usize = 0;
        while k < indices.len()
            invariant
                k <= indices@.len(),
                chain == self@.main_chain(),
                indices@.len() == chain.len(),
                forall|j: int|
                    0 <= j < indices@.len() ==> (#[trigger] indices@[j]) < self.blocks@.len()
                        && self.blocks@[indices@[j] as int]@ == chain[j],
                forall|j: int|
                    0 <= j < k ==> !spec_any_spends((#[trigger] chain[j]).transactions, txid@, vout),
            decreases indices@.len() - k,
        {
            let block = &self.blocks[indices[k]];
            assert(block@ == chain[k as int]);
            if Self::any_spends(block.get_transactions(), txid, vout) {
                return true;
            }
            k += 1;
        }
        false
    }

    /// `Ok(true)` exactly where every input of the transaction names an
    /// output that the main chain has not spent, in a transaction that the
    /// main chain holds; else `Transaction`.
    pub fn validate_transaction_inputs(&self, transaction: &Transaction) -> (out: Result<
        bool,
        BlockchainError,
    >)
        ensures
            spec_inputs_spendable(self@.main_chain(), transaction@) ==> out == Ok::<
                bool,
                BlockchainError,
            >(true),
            !spec_inputs_spendable(self@.main_chain(), transaction@) ==> out is Err
                && out->Err_0 is Transaction,
    {
        if transaction.is_coinbase() {
            return Ok(true);
        }
        let inputs = transaction.get_vin();
        let ghost chain = self@.main_chain();
        let mut i: usize = 0;
        while i < inputs.len()
            invariant
                i <= inputs@.len(),
                chain == self@.main_chain(),
                !transaction@.is_coinbase(),
                inputs@.len() == transaction@.vin.len(),
                crate::chain::transaction::input_models(inputs@) == transaction@.vin,
                forall|j: int|
                    0 <= j < i ==> !spec_is_output_spent(
                        chain,
                        (#[trigger] transaction@.vin[j]).txid,
                        transaction@.vin[j].vout,
                    ) && spec_find_transaction(chain, transaction@.vin[j].txid) is Some,
            decreases inputs@.len() - i,
        {
            assert(transaction@.vin[i as int] == inputs@[i as int]@);
            if self.is_output_spent(inputs[i].get_txid(), inputs[i].get_vout()) {
                return Err(BlockchainError::Transaction(owned("Input already spent")));
            }
            if self.find_transaction(inputs[i].get_txid()).is_none() {
                return Err(BlockchainError::Transaction(owned("Referenced transaction not found")));
            }
            i += 1;
        }
        Ok(true)
    }

    /// The place of the pair of `txid` and `vout` in two lists that are read
    /// side by side.
    fn position_of(seen_txids: &Vec<Vec<u8>>, seen_vouts: &Vec<usize>, txid: &[u8], vout: usize)
        -> (out: Option<usize>)
        requires
            seen_txids@.len() == seen_vouts@.len(),
        ensures
            match out {
                Some(j) => j < seen_txids@.len() && (seen_txids@[j as int])@ == txid@
                    && seen_vouts@[j as int] == vout,
                None => forall|m: int|
                    0 <= m < seen_txids@.len() ==> !((#[trigger] seen_txids@[m])@ == txid@
                        && seen_vouts@[m] == vout),
            },
    {
        let mut j: usize = 0;
        while j < seen_txids.len()
            invariant
                j <= seen_txids@.len(),
                seen_txids@.len() == seen_vouts@.len(),
                forall|m: int|
                    0 <= m < j ==> !((#[trigger] seen_txids@[m])@ == txid@ && seen_vouts@[m]
                        == vout),
            decreases seen_txids@.len() - j,
        {
            if seen_vouts[j] == vout && bytes_eq(seen_txids[j].as_slice(), txid) {
                return Some(j);
            }
            j += 1;
        }
        None
    }

    /// `Ok` exactly where no output is spent twice by the transactions of the
    /// list, coinbases left out; else a `Transaction` error whose message
    /// begins with the words for a detected double spend and names the
    /// transaction and the output.
    pub fn check_for_double_spending(&self, transactions: &[Transaction]) -> (out: Result<
        (),
        BlockchainError,
    >)
        ensures
            out is Ok <==> spec_no_double_spend(transaction_models(transactions@)),
            out is Err ==> out->Err_0 is Transaction && spec_reports_double_spend(out->Err_0),
    {
        let ghost all = transaction_models(transactions@);
        let mut seen_txids: Vec<Vec<u8>> = Vec::new();
        let mut seen_vouts: Vec<usize> = Vec::new();
        let ghost mut seen: Seq<(Seq<u8>, usize)> = Seq::empty();
        let mut t: usize = 0;
        assert(all.take(0) =~= Seq::<TransactionModel>::empty());
        while t < transactions.len()
            invariant
                t <= transactions@.len(),
                all == transaction_models(transactions@),
                all.len() == transactions@.len(),
                seen == spec_spent_refs(all.take(t as int)),
                seen.no_duplicates(),
                seen_txids@.len() == seen.len(),
                seen_vouts@.len() == seen.len(),
                forall|j: int|
                    0 <= j < seen.len() ==> (#[trigger] seen[j]) == ((seen_txids@[j])@, seen_vouts@[j]),
            decreases transactions@.len() - t,
        {
            let transaction = &transactions[t];
            proof {
                assert(all[t as int] == transaction@);
                assert(all.take(t + 1).drop_last() =~= all.take(t as int));
                assert(all.take(t + 1).last() == transaction@);
            }
            if !transaction.is_coinbase() {
                let inputs = transaction.get_vin();
                let ghost refs = spec_input_refs(transaction@);
                let ghost base = seen;
                let mut i: usize = 0;
                assert(base + refs.take(0) =~= base);
                while i < inputs.len()
                    invariant
                        i <= inputs@.len(),
                        t < transactions@.len(),
                        all == transaction_models(transactions@),
                        all.len() == transactions@.len(),
                        all[t as int] == transaction@,
                        !transaction@.is_coinbase(),
                        base == spec_spent_refs(all.take(t as int)),
                        spec_spent_refs(all.take(t + 1)) == base + refs,
                        refs == spec_input_refs(transaction@),
                        refs.len() == inputs@.len(),
                        crate::chain::transaction::input_models(inputs@) == transaction@.vin,
                        seen == base + refs.take(i as int),
                        seen.no_duplicates(),
                        seen_txids@.len() == seen.len(),
                        seen_vouts@.len() == seen.len(),
                        forall|j: int|
                            0 <= j < seen.len() ==> (#[trigger] seen[j]) == (
                                (seen_txids@[j])@,
                                seen_vouts@[j],
                            ),
                    decreases inputs@.len() - i,
                {
                    let txid = inputs[i].get_txid();
                    let vout = inputs[i].get_vout();
                    proof {
                        assert(transaction@.vin[i as int] == inputs@[i as int]@);
                        assert(refs[i as int] == (txid@, vout));
                        assert(refs.take(i + 1) =~= refs.take(i as int).push(refs[i as int]));
                        assert(base + refs.take(i + 1) =~= seen.push(refs[i as int]));
                    }
                    match Self::position_of(&seen_txids, &seen_vouts, txid, vout) {
                        Some(j) => {
                            proof {
                                let full = spec_spent_refs(all);
                                let part = seen.push((txid@, vout));
                                assert(seen[j as int] == ((seen_txids@[j as int])@, seen_vouts@[j as int]));
                                assert(part[j as int] == part[seen.len() as int]);
                                lemma_spent_refs_prefix(all, t + 1);
                                assert(part =~= (base + refs).take(part.len() as int));
                                assert(full[j as int] == part[j as int]);
                                assert(full[seen.len() as int] == part[seen.len() as int]);
                            }
                            return Err(
                                double_spend_error(
                                    hex_encode(transaction.get_id()).as_str(),
                                    hex_encode(txid).as_str(),
                                    vout,
                                ),
                            );
                        },
                        None => {
                            proof {
                                assert forall|m: int| 0 <= m < seen.len() implies (
                                #[trigger] seen[m]) != (txid@, vout) by {
                                    assert(seen[m] == ((seen_txids@[m])@, seen_vouts@[m]));
                                }
                            }
                        },
                    }
                    seen_txids.push(vstd::slice::slice_to_vec(txid));
                    seen_vouts.push(vout);
                    proof {
                        seen = seen.push((txid@, vout));
                    }
                    i += 1;
                }
                proof {
                    assert(refs.take(refs.len() as int) =~= refs);
                }
            }
            t += 1;
        }
        proof {
            assert(all.take(all.len() as int) =~= all);
        }
        Ok(())
    }
}

} // verus!

verus! {

use crate::chain::block::{spec_built_from, spec_mined, spec_within_bounds};
use crate::chain::fees::spec_total_fees;
use crate::chain::fees::FeeCalculator;
use crate::chain::monetary::INITIAL_BLOCK_REWARD;
use crate::chain::proof_of_work::{spec_pow_valid, ProofOfWork};
use crate::chain::transaction::{spec_coinbase, spec_verify};
use crate::wallet::wallet::{spec_address_key_hash, spec_validate_address};

/// Whether every transaction of the list is valid against the chain.
pub open spec fn spec_all_verify(chain: Seq<BlockModel>, transactions: Seq<TransactionModel>)
    -> bool {
    forall|i: int| 0 <= i < transactions.len() ==> spec_verify(chain, #[trigger] transactions[i])
}

/// The chain as it stands at the parent of a block: the walk from the
/// block's parent hash, newest block first.
pub open spec fn spec_parent_view(chain: ChainModel, block: BlockModel) -> Seq<BlockModel> {
    spec_main_chain(chain.blocks, block.pre_block_hash)
}

/// The timestamp of the parent of a block, where the store holds the parent.
pub open spec fn spec_parent_timestamp(chain: ChainModel, block: BlockModel) -> Option<i64> {
    match spec_get_block(chain.blocks, block.pre_block_hash) {
        Some(parent) => Some(parent.timestamp),
        None => None,
    }
}

/// What the full validation of a block on a chain at the time `now` gives.
/// A timestamp that is not in order, against the clock and the parent that
/// the store holds, gives `Ok(false)`; otherwise broken bounds give
/// `InvalidBlock`; otherwise the result says whether Merkle root, proof of
/// work, place of the coinbase and reward are in order and every
/// transaction is valid against the chain as it stands at the parent.
pub open spec fn spec_fully_validated(
    chain: ChainModel,
    block: BlockModel,
    now: i64,
    out: Result<bool, BlockchainError>,
) -> bool {
    let parent_timestamp = spec_parent_timestamp(chain, block);
    if !block.timestamp_in_order(parent_timestamp, now) {
        out == Ok::<bool, BlockchainError>(false)
    } else if !spec_within_bounds(block.transactions) || !block.within_size() {
        out is Err && out->Err_0 is InvalidBlock
    } else {
        out == Ok::<bool, BlockchainError>(
            block.valid_at(parent_timestamp, now) && spec_all_verify(
                spec_parent_view(chain, block),
                block.transactions,
            ),
        )
    }
}

/// The store after `block` came from a peer. A block whose hash is known
/// changes nothing. Any other block is put into the store, and becomes the
/// tip where it is higher than the tip. `None` where the store does not hold
/// the tip: then nothing is put.
pub open spec fn spec_add_block(chain: ChainModel, block: BlockModel) -> Option<ChainModel> {
    if spec_get_block(chain.blocks, block.hash) is Some {
        Some(chain)
    } else {
        let stored = chain.blocks.push(block);
        match spec_get_block(stored, chain.tip) {
            None => None,
            Some(tip_block) => Some(
                ChainModel {
                    tip: if block.height > tip_block.height {
                        block.hash
                    } else {
                        chain.tip
                    },
                    blocks: stored,
                    chainstate: chain.chainstate,
                },
            ),
        }
    }
}

/// The transactions of a mined block: those given, behind a coinbase that
/// pays the block reward and their fees to the miner where one is named.
pub open spec fn spec_block_transactions(
    transactions: Seq<TransactionModel>,
    miner: Option<Seq<char>>,
    extranonce: Seq<u8>,
) -> Seq<TransactionModel> {
    match miner {
        Some(address) => seq![
            spec_coinbase(
                (INITIAL_BLOCK_REWARD + spec_total_fees(transactions)) as u64,
                spec_address_key_hash(address)->Some_0,
                extranonce,
            ),
        ] + transactions,
        None => transactions,
    }
}

/// Whether the transactions of a block can be put together on the chain:
/// all of them are valid, none spends an output twice, the store holds the
/// tip, the next height and difficulty are defined, and the miner's address
/// is valid and the reward fits.
pub open spec fn spec_can_assemble(
    chain: ChainModel,
    transactions: Seq<TransactionModel>,
    miner: Option<Seq<char>>,
) -> bool {
    &&& spec_all_verify(chain.main_chain(), transactions)
    &&& spec_no_double_spend(transactions)
    &&& chain.best_height() is Some
    &&& chain.best_height()->Some_0 < usize::MAX
    &&& spec_next_difficulty_defined(
        spec_recent_blocks(chain.main_chain(), DIFFICULTY_ADJUSTMENT_PERIOD as int),
        (chain.best_height()->Some_0 + 1) as usize,
    )
    &&& match miner {
        Some(address) => spec_validate_address(address) && INITIAL_BLOCK_REWARD + spec_total_fees(
            transactions,
        ) <= u64::MAX,
        None => true,
    }
}

/// Whether a block can be mined on the chain from the transactions: they can
/// be put together, and the block has a transaction and keeps the bounds.
pub open spec fn spec_can_mine(
    chain: ChainModel,
    transactions: Seq<TransactionModel>,
    miner: Option<Seq<char>>,
    extranonce: Seq<u8>,
) -> bool {
    &&& spec_can_assemble(chain, transactions, miner)
    &&& spec_block_transactions(transactions, miner, extranonce).len() > 0
    &&& spec_within_bounds(spec_block_transactions(transactions, miner, extranonce))
}

/// The height of the block that is mined next on a chain.
pub open spec fn spec_next_height(chain: ChainModel) -> usize {
    (chain.best_height()->Some_0 + 1) as usize
}

/// The block that mining gives on a chain from the transactions with an
/// extranonce and a timestamp.
pub open spec fn spec_next_block(
    chain: ChainModel,
    transactions: Seq<TransactionModel>,
    miner: Option<Seq<char>>,
    extranonce: Seq<u8>,
    timestamp: i64,
) -> BlockModel {
    spec_mined_block(
        chain.tip,
        spec_block_transactions(transactions, miner, extranonce),
        spec_next_height(chain),
        spec_next_difficulty(
            spec_recent_blocks(chain.main_chain(), DIFFICULTY_ADJUSTMENT_PERIOD as int),
            spec_next_height(chain),
        ),
        timestamp,
    )
}

/// Whether a block can be mined on the chain from the transactions with an
/// extranonce and a timestamp: `spec_can_mine` holds, and the mined block
/// fits, which is to say that a nonce passes and the encoded block is no
/// larger than 1 MiB. The timestamp is taken as it is, whatever that of
/// the parent is.
pub open spec fn spec_can_mine_at(
    chain: ChainModel,
    transactions: Seq<TransactionModel>,
    miner: Option<Seq<char>>,
    extranonce: Seq<u8>,
    timestamp: i64,
) -> bool {
    spec_can_mine(chain, transactions, miner, extranonce) && spec_next_block(
        chain,
        transactions,
        miner,
        extranonce,
        timestamp,
    ).fits()
}

/// The error for transactions that cannot be put together, by what is wrong
/// first: `Transaction` for a transaction that is not valid; the report of a
/// double spend for an output spent twice; `Database` for a missing tip;
/// `InvalidBlock` where the next height or difficulty is not defined;
/// `Transaction` for a reward that leaves 64 bits; `InvalidAddress` for the
/// miner's address.
pub open spec fn spec_assembly_failed(
    chain: ChainModel,
    transactions: Seq<TransactionModel>,
    miner: Option<Seq<char>>,
    e: BlockchainError,
) -> bool {
    if !spec_all_verify(chain.main_chain(), transactions) {
        e is Transaction
    } else if !spec_no_double_spend(transactions) {
        e is Transaction && spec_reports_double_spend(e)
    } else if chain.best_height() is None {
        e is Database
    } else if chain.best_height()->Some_0 == usize::MAX || !spec_next_difficulty_defined(
        spec_recent_blocks(chain.main_chain(), DIFFICULTY_ADJUSTMENT_PERIOD as int),
        (chain.best_height()->Some_0 + 1) as usize,
    ) {
        e is InvalidBlock
    } else if miner is Some && INITIAL_BLOCK_REWARD + spec_total_fees(transactions) > u64::MAX {
        e is Transaction
    } else {
        miner is Some && !spec_validate_address(miner->Some_0) && e is InvalidAddress
    }
}

/// The error of mining with an extranonce and a timestamp: that of the
/// assembly where the transactions cannot be put together, else
/// `InvalidBlock` for a block without transactions, broken bounds or a
/// mined block that does not fit.
pub open spec fn spec_mining_failed(
    chain: ChainModel,
    transactions: Seq<TransactionModel>,
    miner: Option<Seq<char>>,
    extranonce: Seq<u8>,
    timestamp: i64,
    e: BlockchainError,
) -> bool {
    if !spec_can_assemble(chain, transactions, miner) {
        spec_assembly_failed(chain, transactions, miner, e)
    } else {
        e is InvalidBlock && !spec_can_mine_at(chain, transactions, miner, extranonce, timestamp)
    }
}

/// What mining with a fresh extranonce and the time of the clock gives. On
/// an error the chain stays as it was. Transactions that cannot be put
/// together give the error of the assembly. Else an error is `Crypto`, for
/// the clock, or `InvalidBlock`, and then for an extranonce of sixteen
/// bytes and a time of the clock no block can be mined. A block that comes
/// back was mined with such an extranonce and time.
pub open spec fn spec_mining_done(
    before: ChainModel,
    after: ChainModel,
    transactions: Seq<TransactionModel>,
    miner: Option<Seq<char>>,
    out: Result<Block, BlockchainError>,
) -> bool {
    &&& out is Err ==> after == before
    &&& !spec_can_assemble(before, transactions, miner) ==> out is Err && spec_assembly_failed(
        before,
        transactions,
        miner,
        out->Err_0,
    )
    &&& out is Err && spec_can_assemble(before, transactions, miner) ==> out->Err_0 is Crypto || (
    out->Err_0 is InvalidBlock && exists|extranonce: Seq<u8>, timestamp: i64|
        extranonce.len() == 16 && timestamp >= 0 && !#[trigger] spec_can_mine_at(
            before,
            transactions,
            miner,
            extranonce,
            timestamp,
        ))
    &&& out is Ok ==> exists|extranonce: Seq<u8>, timestamp: i64|
        extranonce.len() == 16 && timestamp >= 0 && spec_can_mine_at(
            before,
            transactions,
            miner,
            extranonce,
            timestamp,
        ) && #[trigger] spec_mined_on(
            before,
            after,
            out->Ok_0@,
            transactions,
            miner,
            extranonce,
            timestamp,
        )
}

/// What mining leaves: the block is mined on the old tip from the
/// transactions, at the next height and difficulty, and the chain holds it
/// as its tip.
pub open spec fn spec_mined_on(
    before: ChainModel,
    after: ChainModel,
    block: BlockModel,
    transactions: Seq<TransactionModel>,
    miner: Option<Seq<char>>,
    extranonce: Seq<u8>,
    timestamp: i64,
) -> bool {
    &&& spec_mined(block)
    &&& spec_built_from(
        block,
        before.tip,
        spec_block_transactions(transactions, miner, extranonce),
        (before.best_height()->Some_0 + 1) as usize,
        spec_next_difficulty(
            spec_recent_blocks(before.main_chain(), DIFFICULTY_ADJUSTMENT_PERIOD as int),
            (before.best_height()->Some_0 + 1) as usize,
        ),
        timestamp,
    )
    &&& after == (ChainModel {
        tip: block.hash,
        blocks: spec_put_block(before.blocks, block),
        chainstate: before.chainstate,
    })
}

/// The place at which a block of height `height` goes into a list that is
/// sorted by height: behind the last block that is not higher.
pub open spec fn spec_insert_position(sorted: Seq<BlockModel>, height: usize) -> int
    decreases sorted.len(),
{
    if sorted.len() == 0 {
        0
    } else if sorted.last().height <= height {
        sorted.len() as int
    } else {
        spec_insert_position(sorted.drop_last(), height)
    }
}

/// The blocks sorted by height, lowest first; blocks of one height keep
/// their order.
pub open spec fn spec_sort_by_height(blocks: Seq<BlockModel>) -> Seq<BlockModel>
    decreases blocks.len(),
{
    if blocks.len() == 0 {
        Seq::empty()
    } else {
        let sorted = spec_sort_by_height(blocks.drop_last());
        sorted.insert(spec_insert_position(sorted, blocks.last().height), blocks.last())
    }
}

/// A list of blocks is sorted by height when no block stands before a lower
/// one.
pub open spec fn spec_sorted_by_height(blocks: Seq<BlockModel>) -> bool {
    forall|i: int, j: int|
        0 <= i < j < blocks.len() ==> (#[trigger] blocks[i]).height <= (#[trigger] blocks[j]).height
}

/// The place of insertion in a sorted list lies behind every block that is
/// not higher and before every block that is higher.
pub proof fn lemma_insert_position(sorted: Seq<BlockModel>, height: usize)
    requires
        spec_sorted_by_height(sorted),
    ensures
        0 <= spec_insert_position(sorted, height) <= sorted.len(),
        forall|i: int|
            0 <= i < spec_insert_position(sorted, height) ==> (#[trigger] sorted[i]).height
                <= height,
        forall|i: int|
            spec_insert_position(sorted, height) <= i < sorted.len() ==> (
            #[trigger] sorted[i]).height > height,
    decreases sorted.len(),
{
    if sorted.len() > 0 && sorted.last().height > height {
        let front = sorted.drop_last();
        assert forall|i: int, j: int| 0 <= i < j < front.len() implies (#[trigger] front[i]).height
            <= (#[trigger] front[j]).height by {
            assert(front[i] == sorted[i]);
            assert(front[j] == sorted[j]);
        }
        lemma_insert_position(front, height);
        let at = spec_insert_position(front, height);
        assert forall|i: int| 0 <= i < at implies (#[trigger] sorted[i]).height <= height by {
            assert(front[i] == sorted[i]);
        }
        assert forall|i: int| at <= i < sorted.len() implies (#[trigger] sorted[i]).height
            > height by {
            if i < front.len() {
                assert(front[i] == sorted[i]);
            }
        }
    } else if sorted.len() > 0 {
        let last = sorted.len() - 1;
        assert forall|i: int| 0 <= i < sorted.len() implies (#[trigger] sorted[i]).height
            <= height by {
            if i < last {
                assert(sorted[i].height <= sorted[last].height);
            }
        }
    }
}

/// Sorting by height gives a list of the same length that is sorted by
/// height.
pub proof fn lemma_sort_by_height_sorts(blocks: Seq<BlockModel>)
    ensures
        spec_sort_by_height(blocks).len() == blocks.len(),
        spec_sorted_by_height(spec_sort_by_height(blocks)),
    decreases blocks.len(),
{
    if blocks.len() > 0 {
        let front = spec_sort_by_height(blocks.drop_last());
        let block = blocks.last();
        lemma_sort_by_height_sorts(blocks.drop_last());
        lemma_insert_position(front, block.height);
        let at = spec_insert_position(front, block.height);
        let sorted = front.insert(at, block);
        assert forall|i: int, j: int| 0 <= i < j < sorted.len() implies (
        #[trigger] sorted[i]).height <= (#[trigger] sorted[j]).height by {
            if i < at && j == at {
                assert(sorted[i] == front[i]);
            } else if i < at && j > at {
                assert(sorted[i] == front[i]);
                assert(sorted[j] == front[j - 1]);
                if i < j - 1 {
                    assert(front[i].height <= front[j - 1].height);
                }
            } else if i < at {
                assert(sorted[i] == front[i]);
                assert(sorted[j] == front[j]);
            } else if i == at {
                assert(sorted[j] == front[j - 1]);
            } else {
                assert(sorted[i] == front[i - 1]);
                assert(sorted[j] == front[j - 1]);
            }
        }
    }
}

/// Whether a block from a peer passes its check: its parent is known or
/// `"None"`, its proof of work is valid, it has a transaction and the Merkle
/// root of its transactions, and every transaction is valid against the
/// main chain. A block that fails is dropped.
pub open spec fn spec_valid_for_sync(chain: ChainModel, block: BlockModel) -> bool {
    &&& block.pre_block_hash == "None"@ || spec_get_block(chain.blocks, block.pre_block_hash)
        is Some
    &&& spec_pow_valid(block)
    &&& block.merkle_in_order()
    &&& spec_all_verify(chain.main_chain(), block.transactions)
}

/// Where a synchronization stands: the chain, whether a block was applied,
/// and whether it was broken off by an error.
pub struct SyncModel {
    pub chain: ChainModel,
    pub updated: bool,
    pub failed: bool,
}

/// One block of a synchronization: a known block is passed over, one that
/// fails its check is dropped, a valid one is added; a store that does not
/// hold its tip breaks off.
pub open spec fn spec_sync_step(state: SyncModel, block: BlockModel) -> SyncModel {
    if state.failed || spec_get_block(state.chain.blocks, block.hash) is Some {
        state
    } else if !spec_valid_for_sync(state.chain, block) {
        state
    } else {
        match spec_add_block(state.chain, block) {
            None => SyncModel { failed: true, ..state },
            Some(chain) => SyncModel { chain, updated: true, failed: false },
        }
    }
}

/// A synchronization with the blocks in the order given.
pub open spec fn spec_sync(chain: ChainModel, blocks: Seq<BlockModel>) -> SyncModel
    decreases blocks.len(),
{
    if blocks.len() == 0 {
        SyncModel { chain, updated: false, failed: false }
    } else {
        spec_sync_step(spec_sync(chain, blocks.drop_last()), blocks.last())
    }
}

impl Blockchain {
    /// Takes a block from a peer into the store; see `spec_add_block`.
    /// `Database` where the store does not hold the tip, and then nothing
    /// changes.
    pub fn add_block(&mut self, block: &Block) -> (out: Result<(), BlockchainError>)
        ensures
            final(self).spec_db_path() == old(self).spec_db_path(),
            match spec_add_block(old(self)@, block@) {
                Some(chain) => out is Ok && final(self)@ == chain,
                None => out is Err && out->Err_0 is Database && final(self)@ == old(self)@,
            },
    {
        if self.find_block_index(block.get_hash()).is_some() {
            return Ok(());
        }
        let ghost stored = self@.blocks.push(block@);
        let tip_height = if text_eq(self.tip_hash.as_str(), block.get_hash()) {
            proof {
                assert(stored[self@.blocks.len() as int] == block@);
                assert forall|j: int| 0 <= j < self@.blocks.len() implies (#[trigger] stored[j]).hash
                    != block@.hash by {
                    assert(stored[j] == self@.blocks[j]);
                }
                lemma_block_index(stored, block@.hash, self@.blocks.len() as int);
            }
            block.get_height()
        } else {
            match self.find_block_index(self.tip_hash.as_str()) {
                Some(i) => {
                    proof {
                        assert(stored[i as int] == self@.blocks[i as int]);
                        assert forall|j: int| 0 <= j < i implies (#[trigger] stored[j]).hash
                            != self@.tip by {
                            assert(stored[j] == self@.blocks[j]);
                        }
                        lemma_block_index(stored, self@.tip, i as int);
                    }
                    self.blocks[i].get_height()
                },
                None => {
                    proof {
                        assert forall|j: int| 0 <= j < stored.len() implies (#[trigger] stored[j]).hash
                            != self@.tip by {
                            if j < self@.blocks.len() {
                                assert(stored[j] == self@.blocks[j]);
                            }
                        }
                    }
                    return Err(BlockchainError::Database(owned("Tip hash not found")));
                },
            }
        };
        self.blocks.push(block.clone());
        assert(self@.blocks =~= stored);
        if block.get_height() > tip_height {
            self.tip_hash = owned(block.get_hash());
        }
        Ok(())
    }

    /// Validates a block in full on this chain at the time `now`: the checks
    /// of `Block::validate_block_at` with the timestamp of the parent that
    /// the store holds, and every transaction against the chain as it stands
    /// at the parent; see `spec_fully_validated`.
    pub fn validate_block_at(&self, block: &Block, now: i64) -> (out: Result<bool, BlockchainError>)
        ensures
            spec_fully_validated(self@, block@, now, out),
    {
        let parent_hash = block.get_pre_block_hash();
        let parent_timestamp = match self.find_block_index(parent_hash.as_str()) {
            Some(i) => {
                assert(self@.blocks[i as int] == self.blocks@[i as int]@);
                Some(self.blocks[i].get_timestamp())
            },
            None => None,
        };
        match block.validate_block_at(parent_timestamp, now) {
            Ok(true) => {},
            Ok(false) => { return Ok(false); },
            Err(e) => { return Err(e); },
        }
        let mut view = self.clone();
        view.set_tip_hash(parent_hash.as_str());
        Ok(view.first_invalid(block.get_transactions()).is_none())
    }

    /// Validates a block in full on this chain against the clock; see
    /// `validate_block_at`. `Crypto` where the clock fails.
    pub fn validate_block(&self, block: &Block) -> (out: Result<bool, BlockchainError>)
        ensures
            (out is Err && out->Err_0 is Crypto) || exists|now: i64|
                now >= 0 && #[trigger] spec_fully_validated(self@, block@, now, out),
    {
        let now = match crate::utils::crypto::current_timestamp() {
            Ok(now) => now,
            Err(e) => { return Err(e); },
        };
        let out = self.validate_block_at(block, now);
        assert(spec_fully_validated(self@, block@, now, out));
        out
    }

    /// Whether every transaction of the list is valid against the main chain;
    /// the place of the first that is not.
    fn first_invalid(&self, transactions: &[Transaction]) -> (out: Option<usize>)
        ensures
            out is None <==> spec_all_verify(self@.main_chain(), transaction_models(transactions@)),
    {
        let ghost all = transaction_models(transactions@);
        let mut i: usize = 0;
        while i < transactions.len()
            invariant
                i <= transactions@.len(),
                all == transaction_models(transactions@),
                all.len() == transactions@.len(),
                forall|j: int| 0 <= j < i ==> spec_verify(self@.main_chain(), #[trigger] all[j]),
            decreases transactions@.len() - i,
        {
            assert(all[i as int] == transactions@[i as int]@);
            if !transactions[i].verify(self) {
                return Some(i);
            }
            i += 1;
        }
        None
    }

    /// Mines a block from `transactions` on the tip, without a coinbase of
    /// its own; see `mine_block_internal`.
    pub fn mine_block(&mut self, transactions: &[Transaction]) -> (out: Result<
        Block,
        BlockchainError,
    >)
        ensures
            final(self).spec_db_path() == old(self).spec_db_path(),
            spec_mining_done(
                old(self)@,
                final(self)@,
                transaction_models(transactions@),
                None,
                out,
            ),
    {
        self.mine_block_internal(transactions, None)
    }

    /// Mines a block from `transactions` on the tip, with a coinbase that
    /// pays the block reward and the fees to `miner_address`; see
    /// `mine_block_internal`.
    pub fn mine_block_with_fees(&mut self, transactions: &[Transaction], miner_address: &str) -> (out:
        Result<Block, BlockchainError>)
        ensures
            final(self).spec_db_path() == old(self).spec_db_path(),
            spec_mining_done(
                old(self)@,
                final(self)@,
                transaction_models(transactions@),
                Some(miner_address@),
                out,
            ),
    {
        self.mine_block_internal(transactions, Some(miner_address))
    }

    /// Mines a block with a fresh extranonce and the time of the clock; see
    /// `spec_mining_done` and `mine_block_with`. The clock is read last:
    /// where it fails the result is `Crypto`.
    pub fn mine_block_internal(&mut self, transactions: &[Transaction], miner_address: Option<&str>)
        -> (out: Result<Block, BlockchainError>)
        ensures
            final(self).spec_db_path() == old(self).spec_db_path(),
            spec_mining_done(
                old(self)@,
                final(self)@,
                transaction_models(transactions@),
                spec_text_of(miner_address),
                out,
            ),
    {
        let ghost before = self@;
        let ghost models = transaction_models(transactions@);
        let ghost miner = spec_text_of(miner_address);
        let extranonce = crate::chain::transaction::fresh_extranonce();
        let ghost nonce = extranonce@;
        let (block_transactions, next_height, difficulty) = match self.assemble(
            transactions,
            miner_address,
            extranonce,
        ) {
            Ok(parts) => parts,
            Err(e) => { return Err(e); },
        };
        let made = Block::new_block(
            self.get_tip_hash(),
            block_transactions.as_slice(),
            next_height,
            difficulty,
        );
        let block = match made {
            Ok(block) => block,
            Err(e) => {
                proof {
                    if e is InvalidBlock {
                        let txs = spec_block_transactions(models, miner, nonce);
                        if txs.len() == 0 || !spec_within_bounds(txs) {
                            assert(!spec_can_mine_at(before, models, miner, nonce, 0));
                        } else {
                            let timestamp = choose|timestamp: i64|
                                timestamp >= 0 && !(#[trigger] spec_mined_block(
                                    before.tip,
                                    txs,
                                    next_height,
                                    difficulty,
                                    timestamp,
                                )).fits();
                            assert(!spec_can_mine_at(before, models, miner, nonce, timestamp));
                        }
                    }
                }
                return Err(e);
            },
        };
        self.put_block(block.clone());
        self.tip_hash = owned(block.get_hash());
        proof {
            assert(spec_can_mine_at(before, models, miner, nonce, block@.timestamp));
            assert(spec_mined_on(before, self@, block@, models, miner, nonce, block@.timestamp));
        }
        Ok(block)
    }

    /// Mines a block on the tip with the given extranonce and timestamp, puts
    /// it into the store and makes it the tip. It succeeds exactly where
    /// `spec_can_mine_at` holds; else the error is the one that
    /// `spec_mining_failed` names, and nothing changes. The timestamp is
    /// taken as it is: a block whose timestamp is not after that of its
    /// parent is mined and stored all the same, and its validation with the
    /// parent's timestamp gives `Ok(false)`.
    pub fn mine_block_with(
        &mut self,
        transactions: &[Transaction],
        miner_address: Option<&str>,
        extranonce: Vec<u8>,
        timestamp: i64,
    ) -> (out: Result<Block, BlockchainError>)
        ensures
            final(self).spec_db_path() == old(self).spec_db_path(),
            out is Ok <==> spec_can_mine_at(
                old(self)@,
                transaction_models(transactions@),
                spec_text_of(miner_address),
                extranonce@,
                timestamp,
            ),
            out is Ok ==> out->Ok_0@ == spec_next_block(
                old(self)@,
                transaction_models(transactions@),
                spec_text_of(miner_address),
                extranonce@,
                timestamp,
            ) && out->Ok_0@.timestamp == timestamp && spec_mined_on(
                old(self)@,
                final(self)@,
                out->Ok_0@,
                transaction_models(transactions@),
                spec_text_of(miner_address),
                extranonce@,
                timestamp,
            ),
            out is Err ==> final(self)@ == old(self)@ && spec_mining_failed(
                old(self)@,
                transaction_models(transactions@),
                spec_text_of(miner_address),
                extranonce@,
                timestamp,
                out->Err_0,
            ),
    {
        let (block_transactions, next_height, difficulty) = match self.assemble(
            transactions,
            miner_address,
            extranonce,
        ) {
            Ok(parts) => parts,
            Err(e) => { return Err(e); },
        };
        let block = match Block::new_block_at(
            self.get_tip_hash(),
            block_transactions.as_slice(),
            next_height,
            difficulty,
            timestamp,
        ) {
            Ok(block) => block,
            Err(e) => { return Err(e); },
        };
        self.put_block(block.clone());
        self.tip_hash = owned(block.get_hash());
        Ok(block)
    }

    /// The transactions of the block that is mined next, with its height and
    /// difficulty. A transaction that is not valid or an output spent twice
    /// gives `Transaction`, then a missing tip `Database`.
    fn assemble(
        &self,
        transactions: &[Transaction],
        miner_address: Option<&str>,
        extranonce: Vec<u8>,
    ) -> (out: Result<(Vec<Transaction>, usize, u32), BlockchainError>)
        ensures
            out is Ok <==> spec_can_assemble(
                self@,
                transaction_models(transactions@),
                spec_text_of(miner_address),
            ),
            out is Ok ==> transaction_models(out->Ok_0.0@) == spec_block_transactions(
                transaction_models(transactions@),
                spec_text_of(miner_address),
                extranonce@,
            ) && out->Ok_0.1 == spec_next_height(self@) && out->Ok_0.2 == spec_next_difficulty(
                spec_recent_blocks(self@.main_chain(), DIFFICULTY_ADJUSTMENT_PERIOD as int),
                spec_next_height(self@),
            ),
            out is Err ==> spec_assembly_failed(
                self@,
                transaction_models(transactions@),
                spec_text_of(miner_address),
                out->Err_0,
            ),
    {
        let ghost models = transaction_models(transactions@);
        if self.first_invalid(transactions).is_some() {
            return Err(BlockchainError::Transaction(owned("Invalid transaction")));
        }
        match self.check_for_double_spending(transactions) {
            Ok(()) => {},
            Err(e) => { return Err(e); },
        }
        let best_height = match self.get_best_height() {
            Ok(height) => height,
            Err(e) => { return Err(e); },
        };
        if best_height == usize::MAX {
            return Err(BlockchainError::InvalidBlock(owned("Height out of range")));
        }
        let next_height = best_height + 1;
        let difficulty = match self.calculate_next_difficulty(next_height) {
            Ok(difficulty) => difficulty,
            Err(e) => { return Err(e); },
        };
        let mut block_transactions: Vec<Transaction> = Vec::new();
        match miner_address {
            Some(miner_addr) => {
                let total_fees = match FeeCalculator::checked_total_fees(transactions) {
                    Some(fees) => fees,
                    None => {
                        return Err(BlockchainError::Transaction(owned("Fees out of range")));
                    },
                };
                let coinbase_reward = match total_fees.checked_add(INITIAL_BLOCK_REWARD) {
                    Some(reward) => reward,
                    None => {
                        return Err(BlockchainError::Transaction(owned("Reward out of range")));
                    },
                };
                let coinbase_tx = match Transaction::new_coinbase_tx_with_extranonce(
                    miner_addr,
                    coinbase_reward,
                    extranonce,
                ) {
                    Ok(tx) => tx,
                    Err(e) => { return Err(e); },
                };
                block_transactions.push(coinbase_tx);
            },
            None => {},
        }
        let ghost head = transaction_models(block_transactions@);
        let mut i: usize = 0;
        while i < transactions.len()
            invariant
                i <= transactions@.len(),
                models == transaction_models(transactions@),
                models.len() == transactions@.len(),
                transaction_models(block_transactions@) == head + models.take(i as int),
            decreases transactions@.len() - i,
        {
            let ghost before = block_transactions@;
            block_transactions.push(transactions[i].clone());
            proof {
                assert(models[i as int] == transactions@[i as int]@);
                assert(transaction_models(block_transactions@) =~= transaction_models(before).push(
                    models[i as int],
                ));
                assert(head + models.take(i + 1) =~= (head + models.take(i as int)).push(
                    models[i as int],
                ));
            }
            i += 1;
        }
        proof {
            assert(models.take(models.len() as int) =~= models);
            assert(transaction_models(block_transactions@) =~= spec_block_transactions(
                models,
                spec_text_of(miner_address),
                extranonce@,
            ));
        }
        Ok((block_transactions, next_height, difficulty))
    }

    /// The place at which a block of `height` goes into `sorted`.
    fn insert_position(sorted: &Vec<Block>, height: usize) -> (at: usize)
        ensures
            at == spec_insert_position(block_models(sorted@), height),
            at <= sorted@.len(),
    {
        let ghost models = block_models(sorted@);
        let mut i: usize = sorted.len();
        assert(models.take(i as int) =~= models);
        while i > 0 && sorted[i - 1].get_height() > height
            invariant
                i <= sorted@.len(),
                models == block_models(sorted@),
                models.len() == sorted@.len(),
                spec_insert_position(models, height) == spec_insert_position(
                    models.take(i as int),
                    height,
                ),
            decreases i,
        {
            proof {
                assert(models.take(i as int).last() == sorted@[i - 1]@);
                assert(models.take(i as int).drop_last() =~= models.take(i - 1));
            }
            i -= 1;
        }
        proof {
            if i > 0 {
                assert(models.take(i as int).last() == sorted@[i - 1]@);
            } else {
                assert(models.take(0).len() == 0);
            }
        }
        i
    }

    /// The blocks sorted by height, lowest first.
    fn sorted_by_height(blocks: &[Block]) -> (out: Vec<Block>)
        ensures
            block_models(out@) == spec_sort_by_height(block_models(blocks@)),
    {
        let ghost all = block_models(blocks@);
        let mut out: Vec<Block> = Vec::new();
        let mut k: usize = 0;
        assert(all.take(0) =~= Seq::<BlockModel>::empty());
        assert(block_models(out@) =~= Seq::<BlockModel>::empty());
        while k < blocks.len()
            invariant
                k <= blocks@.len(),
                all == block_models(blocks@),
                all.len() == blocks@.len(),
                out@.len() == k,
                block_models(out@) == spec_sort_by_height(all.take(k as int)),
            decreases blocks@.len() - k,
        {
            let ghost sorted = block_models(out@);
            let at = Self::insert_position(&out, blocks[k].get_height());
            proof {
                assert(all.take(k + 1).drop_last() =~= all.take(k as int));
                assert(all.take(k + 1).last() == blocks@[k as int]@);
            }
            out.insert(at, blocks[k].clone());
            assert(block_models(out@) =~= sorted.insert(at as int, blocks@[k as int]@));
            k += 1;
        }
        assert(all.take(all.len() as int) =~= all);
        out
    }

    /// Takes the blocks of a peer: sorted by height, each block that the
    /// store does not know and that passes `validate_block_for_sync` is
    /// added. The result says whether a block was added. An error breaks the
    /// work off and leaves the blocks that were added before it.
    pub fn sync_with_peer(&mut self, peer_blocks: &[Block]) -> (out: Result<bool, BlockchainError>)
        ensures
            final(self).spec_db_path() == old(self).spec_db_path(),
            ({
                let outcome = spec_sync(old(self)@, spec_sort_by_height(block_models(peer_blocks@)));
                &&& final(self)@ == outcome.chain
                &&& out is Ok <==> !outcome.failed
                &&& out is Ok ==> out->Ok_0 == outcome.updated
            }),
    {
        let sorted_blocks = Self::sorted_by_height(peer_blocks);
        let ghost sorted = block_models(sorted_blocks@);
        let ghost start = self@;
        let mut updated = false;
        let mut k: usize = 0;
        assert(sorted.take(0) =~= Seq::<BlockModel>::empty());
        while k < sorted_blocks.len()
            invariant
                k <= sorted_blocks@.len(),
                sorted == block_models(sorted_blocks@),
                sorted.len() == sorted_blocks@.len(),
                start == old(self)@,
                self.spec_db_path() == old(self).spec_db_path(),
                sorted == spec_sort_by_height(block_models(peer_blocks@)),
                spec_sync(start, sorted.take(k as int)) == (SyncModel {
                    chain: self@,
                    updated,
                    failed: false,
                }),
            decreases sorted_blocks@.len() - k,
        {
            let block = &sorted_blocks[k];
            proof {
                assert(sorted[k as int] == block@);
                assert(sorted.take(k + 1).drop_last() =~= sorted.take(k as int));
                assert(sorted.take(k + 1).last() == block@);
            }
            if self.find_block_index(block.get_hash()).is_none() {
                let valid = match self.validate_block_for_sync(block) {
                    Ok(valid) => valid,
                    Err(_) => false,
                };
                if valid {
                    match self.add_block(block) {
                        Ok(()) => {},
                        Err(e) => {
                            proof {
                                lemma_sync_stays_failed(start, sorted, k + 1);
                            }
                            return Err(e);
                        },
                    }
                    updated = true;
                }
            }
            k += 1;
        }
        assert(sorted.take(sorted.len() as int) =~= sorted);
        Ok(updated)
    }

    /// Checks a block from a peer; see `spec_valid_for_sync`. It never
    /// fails: a block that breaks a rule gives `Ok(false)`.
    pub fn validate_block_for_sync(&self, block: &Block) -> (out: Result<bool, BlockchainError>)
        ensures
            out == Ok::<bool, BlockchainError>(spec_valid_for_sync(self@, block@)),
    {
        let parent = block.get_pre_block_hash();
        if !text_eq(parent.as_str(), "None") && self.find_block_index(parent.as_str()).is_none() {
            return Ok(false);
        }
        if !ProofOfWork::validate(block) {
            return Ok(false);
        }
        match block.verify_merkle_root() {
            Ok(true) => {},
            _ => { return Ok(false); },
        }
        Ok(self.first_invalid(block.get_transactions()).is_none())
    }
}

/// The text of an address that may be given.
pub open spec fn spec_text_of(text: Option<&str>) -> Option<Seq<char>> {
    match text {
        Some(t) => Some(t@),
        None => None,
    }
}

/// A synchronization that was broken off stays broken off.
pub proof fn lemma_sync_stays_failed(chain: ChainModel, blocks: Seq<BlockModel>, k: int)
    requires
        0 <= k <= blocks.len(),
        spec_sync(chain, blocks.take(k)).failed,
    ensures
        spec_sync(chain, blocks) == spec_sync(chain, blocks.take(k)),
    decreases blocks.len(),
{
    if k == blocks.len() {
        assert(blocks.take(k) =~= blocks);
    } else {
        assert(blocks.drop_last().take(k) =~= blocks.take(k));
        lemma_sync_stays_failed(chain, blocks.drop_last(), k);
    }
}

} // verus!

verus! {

/// Whether `i` is the place of the first record of transaction `txid`.
pub open spec fn spec_first_record_at(records: Seq<RecordModel>, txid: Seq<u8>, i: int) -> bool {
    &&& 0 <= i < records.len()
    &&& records[i].txid == txid
    &&& forall|j: int| 0 <= j < i ==> (#[trigger] records[j]).txid != txid
}

/// Whether there is no record of transaction `txid`.
pub open spec fn spec_record_absent(records: Seq<RecordModel>, txid: Seq<u8>) -> bool {
    forall|j: int| 0 <= j < records.len() ==> (#[trigger] records[j]).txid != txid
}

/// The place of the first record of transaction `txid`.
pub open spec fn spec_record_index(records: Seq<RecordModel>, txid: Seq<u8>) -> int {
    choose|i: int| spec_first_record_at(records, txid, i)
}

/// The outputs that the index holds for transaction `txid`.
pub open spec fn spec_get_record(records: Seq<RecordModel>, txid: Seq<u8>) -> Option<
    Seq<OutputModel>,
> {
    if spec_record_absent(records, txid) {
        None
    } else {
        Some(records[spec_record_index(records, txid)].outputs)
    }
}

/// The index after `outputs` are written for transaction `txid`: they take
/// the place of what was there, or come last.
pub open spec fn spec_put_record(
    records: Seq<RecordModel>,
    txid: Seq<u8>,
    outputs: Seq<OutputModel>,
) -> Seq<RecordModel> {
    if spec_record_absent(records, txid) {
        records.push(RecordModel { txid, outputs })
    } else {
        records.update(spec_record_index(records, txid), RecordModel { txid, outputs })
    }
}

/// The index after the record of transaction `txid` is taken out.
pub open spec fn spec_remove_record(records: Seq<RecordModel>, txid: Seq<u8>) -> Seq<RecordModel> {
    if spec_record_absent(records, txid) {
        records
    } else {
        records.remove(spec_record_index(records, txid))
    }
}

/// A found place is the place of the first record of the transaction.
pub proof fn lemma_record_index(records: Seq<RecordModel>, txid: Seq<u8>, i: int)
    requires
        spec_first_record_at(records, txid, i),
    ensures
        !spec_record_absent(records, txid),
        spec_record_index(records, txid) == i,
        spec_get_record(records, txid) == Some(records[i].outputs),
{
    let k = spec_record_index(records, txid);
    assert(spec_first_record_at(records, txid, k));
    if k < i {
        assert(records[k].txid != txid);
    }
    if i < k {
        assert(records[i].txid != txid);
    }
}

/// The place of the first record of transaction `txid`.
pub fn find_record_index(records: &Vec<UtxoRecord>, txid: &[u8]) -> (out: Option<usize>)
    ensures
        match out {
            Some(i) => spec_first_record_at(record_models(records@), txid@, i as int) && i
                < records@.len() && spec_get_record(record_models(records@), txid@) == Some(
                records@[i as int]@.outputs,
            ) && spec_record_index(record_models(records@), txid@) == i,
            None => spec_record_absent(record_models(records@), txid@),
        },
        out is Some <==> spec_get_record(record_models(records@), txid@) is Some,
{
    let ghost all = record_models(records@);
    let mut i: usize = 0;
    while i < records.len()
        invariant
            i <= records@.len(),
            all == record_models(records@),
            all.len() == records@.len(),
            forall|j: int| 0 <= j < i ==> (#[trigger] all[j]).txid != txid@,
        decreases records@.len() - i,
    {
        assert(all[i as int] == records@[i as int]@);
        if bytes_eq(records[i].txid.as_slice(), txid) {
            proof {
                lemma_record_index(all, txid@, i as int);
            }
            return Some(i);
        }
        i += 1;
    }
    None
}

/// Writes `outputs` for transaction `txid`.
pub fn put_record(records: &mut Vec<UtxoRecord>, txid: &[u8], outputs: Vec<TXOutput>)
    ensures
        record_models(final(records)@) == spec_put_record(
            record_models(old(records)@),
            txid@,
            output_models(outputs@),
        ),
{
    let ghost before = record_models(records@);
    let record = UtxoRecord { txid: vstd::slice::slice_to_vec(txid), outputs };
    match find_record_index(records, txid) {
        Some(i) => {
            records.set(i, record);
            assert(record_models(records@) =~= before.update(i as int, record@));
        },
        None => {
            records.push(record);
            assert(record_models(records@) =~= before.push(record@));
        },
    }
}

/// Takes the record of transaction `txid` out.
pub fn remove_record(records: &mut Vec<UtxoRecord>, txid: &[u8])
    ensures
        record_models(final(records)@) == spec_remove_record(record_models(old(records)@), txid@),
{
    let ghost before = record_models(records@);
    match find_record_index(records, txid) {
        Some(i) => {
            let _ = records.remove(i);
            assert(record_models(records@) =~= before.remove(i as int));
        },
        None => {},
    }
}

/// The index after `outputs` are added to those of transaction `txid`;
/// nothing changes where there is nothing to add.
pub open spec fn spec_append_outputs(
    records: Seq<RecordModel>,
    txid: Seq<u8>,
    outputs: Seq<OutputModel>,
) -> Seq<RecordModel> {
    if outputs.len() == 0 {
        records
    } else {
        match spec_get_record(records, txid) {
            Some(existing) => spec_put_record(records, txid, existing + outputs),
            None => spec_put_record(records, txid, outputs),
        }
    }
}

/// The first `count` outputs of a transaction that no block of the chain
/// spends, in order.
pub open spec fn spec_unspent_of(chain: Seq<BlockModel>, transaction: TransactionModel, count: int)
    -> Seq<OutputModel>
    decreases count,
{
    if count <= 0 {
        Seq::empty()
    } else {
        let before = spec_unspent_of(chain, transaction, count - 1);
        if spec_is_output_spent(chain, transaction.id, (count - 1) as usize) {
            before
        } else {
            before.push(transaction.vout[count - 1])
        }
    }
}

/// The outputs of a transaction that no block of the chain spends.
pub open spec fn spec_unspent_outputs(chain: Seq<BlockModel>, transaction: TransactionModel)
    -> Seq<OutputModel> {
    spec_unspent_of(chain, transaction, transaction.vout.len() as int)
}

/// The index after the unspent outputs of the transactions are added, in
/// order.
pub open spec fn spec_index_transactions(
    chain: Seq<BlockModel>,
    records: Seq<RecordModel>,
    transactions: Seq<TransactionModel>,
) -> Seq<RecordModel>
    decreases transactions.len(),
{
    if transactions.len() == 0 {
        records
    } else {
        spec_append_outputs(
            spec_index_transactions(chain, records, transactions.drop_last()),
            transactions.last().id,
            spec_unspent_outputs(chain, transactions.last()),
        )
    }
}

/// The index after the unspent outputs of the transactions of the blocks are
/// added, block by block in the order given.
pub open spec fn spec_index_blocks(
    chain: Seq<BlockModel>,
    records: Seq<RecordModel>,
    blocks: Seq<BlockModel>,
) -> Seq<RecordModel>
    decreases blocks.len(),
{
    if blocks.len() == 0 {
        records
    } else {
        spec_index_transactions(
            chain,
            spec_index_blocks(chain, records, blocks.drop_last()),
            blocks.last().transactions,
        )
    }
}

/// The UTXO index of a chain: for each transaction that still has outputs
/// which no block of the chain spends, those outputs in order. The records
/// come in the order of the walk from the tip.
pub open spec fn spec_find_utxo(chain: Seq<BlockModel>) -> Seq<RecordModel> {
    spec_index_blocks(chain, Seq::empty(), chain)
}

impl Blockchain {
    /// The records of the UTXO index.
    pub fn get_chainstate(&self) -> (out: &Vec<UtxoRecord>)
        ensures
            record_models(out@) == self@.chainstate,
    {
        &self.chainstate
    }

    /// Replaces the records of the UTXO index and leaves tip and blocks as
    /// they are.
    pub fn set_chainstate(&mut self, records: Vec<UtxoRecord>)
        ensures
            final(self).spec_db_path() == old(self).spec_db_path(),
            final(self)@ == (ChainModel { chainstate: record_models(records@), ..old(self)@ }),
    {
        self.chainstate = records;
    }

    /// The outputs of `transaction` that no block of the main chain spends.
    fn unspent_outputs(&self, transaction: &Transaction) -> (out: Vec<TXOutput>)
        ensures
            output_models(out@) == spec_unspent_outputs(self@.main_chain(), transaction@),
    {
        let outputs = transaction.get_vout();
        let txid = transaction.get_id();
        let ghost chain = self@.main_chain();
        let mut kept: Vec<TXOutput> = Vec::new();
        let mut i: usize = 0;
        assert(output_models(kept@) =~= Seq::<OutputModel>::empty());
        while i < outputs.len()
            invariant
                i <= outputs@.len(),
                chain == self@.main_chain(),
                txid@ == transaction@.id,
                outputs@.len() == transaction@.vout.len(),
                output_models(outputs@) == transaction@.vout,
                output_models(kept@) == spec_unspent_of(chain, transaction@, i as int),
            decreases outputs@.len() - i,
        {
            if !self.is_output_spent(txid, i) {
                let ghost before = kept@;
                kept.push(outputs[i].clone());
                assert(transaction@.vout[i as int] == outputs@[i as int]@);
                assert(output_models(kept@) =~= output_models(before).push(
                    transaction@.vout[i as int],
                ));
            }
            i += 1;
        }
        kept
    }

    /// Adds `outputs` to those that the records hold for `txid`.
    fn append_outputs(records: &mut Vec<UtxoRecord>, txid: &[u8], outputs: Vec<TXOutput>)
        ensures
            record_models(final(records)@) == spec_append_outputs(
                record_models(old(records)@),
                txid@,
                output_models(outputs@),
            ),
    {
        if outputs.len() == 0 {
            return ;
        }
        match find_record_index(records, txid) {
            Some(i) => {
                let mut merged = copy_outputs(records[i].outputs.as_slice());
                let mut k: usize = 0;
                let ghost existing = output_models(records@[i as int].outputs@);
                assert(existing + output_models(outputs@).take(0) =~= existing);
                while k < outputs.len()
                    invariant
                        k <= outputs@.len(),
                        output_models(merged@) == existing + output_models(outputs@).take(k as int),
                    decreases outputs@.len() - k,
                {
                    let ghost before = merged@;
                    merged.push(outputs[k].clone());
                    proof {
                        assert(output_models(merged@) =~= output_models(before).push(
                            outputs@[k as int]@,
                        ));
                        assert(output_models(outputs@).take(k + 1) =~= output_models(
                            outputs@,
                        ).take(k as int).push(outputs@[k as int]@));
                    }
                    k += 1;
                }
                proof {
                    assert(output_models(outputs@).take(outputs@.len() as int) =~= output_models(
                        outputs@,
                    ));
                }
                put_record(records, txid, merged);
            },
            None => {
                put_record(records, txid, outputs);
            },
        }
    }

    /// The UTXO index that the main chain gives; see `spec_find_utxo`.
    pub fn find_utxo(&self) -> (out: Vec<UtxoRecord>)
        ensures
            record_models(out@) == spec_find_utxo(self@.main_chain()),
    {
        let indices = self.chain_indices();
        let ghost chain = self@.main_chain();
        let mut utxo: Vec<UtxoRecord> = Vec::new();
        let mut k: usize = 0;
        proof {
            assert(chain.take(0) =~= Seq::<BlockModel>::empty());
            assert(record_models(utxo@) =~= Seq::<RecordModel>::empty());
        }
        while k < indices.len()
            invariant
                k <= indices@.len(),
                chain == self@.main_chain(),
                indices@.len() == chain.len(),
                forall|j: int|
                    0 <= j < indices@.len() ==> (#[trigger] indices@[j]) < self.blocks@.len()
                        && self.blocks@[indices@[j] as int]@ == chain[j],
                record_models(utxo@) == spec_index_blocks(
                    chain,
                    Seq::empty(),
                    chain.take(k as int),
                ),
            decreases indices@.len() - k,
        {
            let block = &self.blocks[indices[k]];
            let transactions = block.get_transactions();
            let ghost models = block@.transactions;
            let ghost entry = record_models(utxo@);
            proof {
                assert(chain.take(k + 1).drop_last() =~= chain.take(k as int));
                assert(chain.take(k + 1).last() == block@);
                assert(models.take(0) =~= Seq::<TransactionModel>::empty());
            }
            let mut t: usize = 0;
            while t < transactions.len()
                invariant
                    t <= transactions@.len(),
                    chain == self@.main_chain(),
                    models == transaction_models(transactions@),
                    models.len() == transactions@.len(),
                    record_models(utxo@) == spec_index_transactions(
                        chain,
                        entry,
                        models.take(t as int),
                    ),
                decreases transactions@.len() - t,
            {
                proof {
                    assert(models.take(t + 1).drop_last() =~= models.take(t as int));
                    assert(models.take(t + 1).last() == transactions@[t as int]@);
                }
                let kept = self.unspent_outputs(&transactions[t]);
                Self::append_outputs(&mut utxo, transactions[t].get_id(), kept);
                t += 1;
            }
            proof {
                assert(models.take(models.len() as int) =~= models);
            }
            k += 1;
        }
        proof {
            assert(chain.take(chain.len() as int) =~= chain);
        }
        utxo
    }
}

} // verus!

verus! {

impl Blockchain {
    /// Rebuilds the UTXO index from the main chain.
    pub fn reindex_chainstate(&mut self)
        ensures
            final(self).spec_db_path() == old(self).spec_db_path(),
            final(self)@ == (ChainModel {
                chainstate: spec_find_utxo(old(self)@.main_chain()),
                ..old(self)@
            }),
    {
        let utxo = self.find_utxo();
        self.chainstate = utxo;
    }
}

} // verus!
