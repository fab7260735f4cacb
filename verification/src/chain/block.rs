//! Blocks: what they hold, how they are built and mined, and what makes one
//! valid.

use crate::chain::difficulty::DifficultyAdjustment;
use crate::chain::merkle::{
    spec_merkle_root,
    spec_transaction_ids,
    transaction_ids,
    MerkleProof,
    MerkleTree,
};
use crate::chain::monetary::INITIAL_BLOCK_REWARD;
use crate::chain::proof_of_work::{
    lemma_pow_of_header, spec_pow_valid, spec_pow_valid_at, spec_preimage, ProofOfWork,
};
use crate::chain::transaction::{
    bytes_eq, copy_transactions, decode_transactions, encode_transactions, transaction_models,
    Transaction, TransactionModel,
};
use crate::error::{owned, BlockchainError};
use crate::utils::crypto::{current_timestamp, sha256_digest, spec_hex_encode, spec_sha256};
use crate::utils::serialization::{
    decode_bytes, decode_i64, decode_text, decode_u64, encode_bytes, encode_i64, encode_text,
    encode_u64, lemma_bytes_round_trip, lemma_i64_round_trip, lemma_list_round_trip,
    lemma_text_round_trip, lemma_u64_round_trip, spec_encode_bytes, spec_encode_i64,
    spec_encode_list, spec_encode_text, spec_encode_u64, spec_parse_bytes, spec_parse_i64,
    spec_parse_list, spec_parse_text, spec_parse_u64,
};
use vstd::prelude::*;

verus! {

/// The largest size of an encoded block, in bytes: 1 MiB.
pub const MAX_BLOCK_SIZE: usize = 1_048_576;

/// The largest number of transactions in a block.
pub const MAX_TRANSACTIONS_PER_BLOCK: usize = 4000;

/// The largest size of an encoded transaction, in bytes: 100 KiB.
pub const MAX_TRANSACTION_SIZE: usize = 102_400;

/// How far ahead of the clock a block's timestamp may lie: two hours, in
/// milliseconds.
pub const MAX_FUTURE_TIME: i64 = 7_200_000;

/// What a block is.
pub struct BlockModel {
    pub timestamp: i64,
    pub pre_block_hash: Seq<char>,
    pub hash: Seq<char>,
    pub transactions: Seq<TransactionModel>,
    pub nonce: i64,
    pub height: usize,
    pub difficulty: u32,
    pub merkle_root: Seq<u8>,
}

/// The sum of the sizes of the encoded transactions.
pub open spec fn spec_total_size(transactions: Seq<TransactionModel>) -> int
    decreases transactions.len(),
{
    if transactions.len() == 0 {
        0
    } else {
        spec_total_size(transactions.drop_last()) + transactions.last().encoding().len()
    }
}

/// The bounds on a list of transactions for a block: at most 4,000 of them,
/// none above 100 KiB, and no more than 1 MiB in all. The encoded block is
/// bounded besides; see `BlockModel::within_size`.
pub open spec fn spec_within_bounds(transactions: Seq<TransactionModel>) -> bool {
    &&& transactions.len() <= MAX_TRANSACTIONS_PER_BLOCK
    &&& forall|i: int|
        0 <= i < transactions.len() ==> (#[trigger] transactions[i]).encoding().len()
            <= MAX_TRANSACTION_SIZE
    &&& spec_total_size(transactions) <= MAX_BLOCK_SIZE
}

/// The sum of the fees of all transactions but the first.
pub open spec fn spec_fees_after_first(transactions: Seq<TransactionModel>) -> int
    decreases transactions.len(),
{
    if transactions.len() <= 1 {
        0
    } else {
        spec_fees_after_first(transactions.drop_last()) + transactions.last().fee
    }
}

/// Every transaction can be held in memory, and so can the list.
pub open spec fn transactions_wf(transactions: Seq<TransactionModel>) -> bool {
    transactions.len() <= usize::MAX && forall|i: int|
        0 <= i < transactions.len() ==> (#[trigger] transactions[i]).wf()
}

impl BlockModel {
    /// Every part can be held in memory.
    pub open spec fn wf(self) -> bool {
        &&& vstd::utf8::encode_utf8(self.pre_block_hash).len() <= usize::MAX
        &&& vstd::utf8::encode_utf8(self.hash).len() <= usize::MAX
        &&& transactions_wf(self.transactions)
        &&& self.merkle_root.len() <= usize::MAX
    }

    /// The encoding: timestamp, parent hash, hash, transactions, nonce,
    /// height, difficulty, Merkle root.
    pub open spec fn encoding(self) -> Seq<u8> {
        spec_encode_i64(self.timestamp) + spec_encode_text(self.pre_block_hash) + spec_encode_text(
            self.hash,
        ) + spec_encode_list(self.transactions, TransactionModel::encoder()) + spec_encode_i64(
            self.nonce,
        ) + spec_encode_u64(self.height as u64) + spec_encode_u64(self.difficulty as u64)
            + spec_encode_bytes(self.merkle_root)
    }

    /// Reads a block from the front of `bytes`.
    pub open spec fn parse(bytes: Seq<u8>) -> Option<(BlockModel, Seq<u8>)> {
        match spec_parse_i64(bytes) {
            Some((timestamp, r1)) => match spec_parse_text(r1) {
                Some((pre_block_hash, r2)) => match spec_parse_text(r2) {
                    Some((hash, r3)) => match spec_parse_list(r3, TransactionModel::parser()) {
                        Some((transactions, r4)) => match spec_parse_i64(r4) {
                            Some((nonce, r5)) => match spec_parse_u64(r5) {
                                Some((height, r6)) => match spec_parse_u64(r6) {
                                    Some((difficulty, r7)) => match spec_parse_bytes(r7) {
                                        Some((merkle_root, r8)) => if height <= usize::MAX
                                            && difficulty <= u32::MAX {
                                            Some(
                                                (
                                                    BlockModel {
                                                        timestamp,
                                                        pre_block_hash,
                                                        hash,
                                                        transactions,
                                                        nonce,
                                                        height: height as usize,
                                                        difficulty: difficulty as u32,
                                                        merkle_root,
                                                    },
                                                    r8,
                                                ),
                                            )
                                        } else {
                                            None
                                        },
                                        None => None,
                                    },
                                    None => None,
                                },
                                None => None,
                            },
                            None => None,
                        },
                        None => None,
                    },
                    None => None,
                },
                None => None,
            },
            None => None,
        }
    }

    /// Reading an encoded block gives it back, whatever follows it.
    pub proof fn lemma_round_trip(self, rest: Seq<u8>)
        requires
            self.wf(),
        ensures
            BlockModel::parse(self.encoding() + rest) == Some((self, rest)),
    {
        let e1 = spec_encode_i64(self.timestamp);
        let e2 = spec_encode_text(self.pre_block_hash);
        let e3 = spec_encode_text(self.hash);
        let e4 = spec_encode_list(self.transactions, TransactionModel::encoder());
        let e5 = spec_encode_i64(self.nonce);
        let e6 = spec_encode_u64(self.height as u64);
        let e7 = spec_encode_u64(self.difficulty as u64);
        let e8 = spec_encode_bytes(self.merkle_root);
        let r7 = e8 + rest;
        let r6 = e7 + r7;
        let r5 = e6 + r6;
        let r4 = e5 + r5;
        let r3 = e4 + r4;
        let r2 = e3 + r3;
        let r1 = e2 + r2;
        assert(self.encoding() + rest =~= e1 + r1);
        assert(spec_parse_i64(e1 + r1) == Some((self.timestamp, r1))) by {
            lemma_i64_round_trip(self.timestamp, r1);
        }
        assert(spec_parse_text(r1) == Some((self.pre_block_hash, r2))) by {
            lemma_text_round_trip(self.pre_block_hash, r2);
        }
        assert(spec_parse_text(r2) == Some((self.hash, r3))) by {
            lemma_text_round_trip(self.hash, r3);
        }
        assert(spec_parse_list(r3, TransactionModel::parser()) == Some((self.transactions, r4)))
            by {
            assert forall|i: int, r: Seq<u8>| 0 <= i < self.transactions.len() implies #[trigger] (
            TransactionModel::parser())((TransactionModel::encoder())(self.transactions[i]) + r)
                == Some((self.transactions[i], r)) by {
                self.transactions[i].lemma_round_trip(r);
            }
            lemma_list_round_trip(
                self.transactions,
                r4,
                TransactionModel::encoder(),
                TransactionModel::parser(),
            );
        }
        assert(spec_parse_i64(r4) == Some((self.nonce, r5))) by {
            lemma_i64_round_trip(self.nonce, r5);
        }
        assert(spec_parse_u64(r5) == Some((self.height as u64, r6))) by {
            lemma_u64_round_trip(self.height as u64, r6);
        }
        assert(spec_parse_u64(r6) == Some((self.difficulty as u64, r7))) by {
            lemma_u64_round_trip(self.difficulty as u64, r7);
        }
        assert(spec_parse_bytes(r7) == Some((self.merkle_root, rest))) by {
            lemma_bytes_round_trip(self.merkle_root, rest);
        }
    }

    /// The encoded block is no larger than 1 MiB.
    pub open spec fn within_size(self) -> bool {
        self.encoding().len() <= MAX_BLOCK_SIZE
    }

    /// A mined block can be handed out: the search found a nonce, and the
    /// encoded block is no larger than 1 MiB.
    pub open spec fn fits(self) -> bool {
        self.nonce < i64::MAX && self.within_size()
    }

    /// The Merkle root that the transactions of the block give.
    pub open spec fn computed_merkle_root(self) -> Seq<u8> {
        spec_merkle_root(spec_transaction_ids(self.transactions))
    }

    /// The block commits to its transactions: its Merkle root is the one
    /// that they give.
    pub open spec fn merkle_in_order(self) -> bool {
        self.transactions.len() > 0 && self.merkle_root == self.computed_merkle_root()
    }

    /// The first transaction is a coinbase and no later one is.
    pub open spec fn coinbase_in_place(self) -> bool {
        &&& self.transactions.len() > 0
        &&& self.transactions[0].is_coinbase()
        &&& forall|i: int|
            0 < i < self.transactions.len() ==> !(#[trigger] self.transactions[i]).is_coinbase()
    }

    /// The coinbase pays the block reward plus the fees of the other
    /// transactions.
    pub open spec fn reward_in_order(self) -> bool {
        self.transactions.len() > 0 && self.transactions[0].output_sum() == INITIAL_BLOCK_REWARD
            + spec_fees_after_first(self.transactions)
    }

    /// The timestamp is at most two hours ahead of `now` and after that of
    /// the parent, where one is given.
    pub open spec fn timestamp_in_order(self, prev_block_timestamp: Option<i64>, now: i64) -> bool {
        &&& self.timestamp <= now + MAX_FUTURE_TIME
        &&& match prev_block_timestamp {
            Some(prev) => self.timestamp > prev,
            None => true,
        }
    }

    /// What `validate_block` decides where the bounds hold: timestamp, Merkle
    /// root, proof of work, place of the coinbase and reward.
    pub open spec fn valid_at(self, prev_block_timestamp: Option<i64>, now: i64) -> bool {
        &&& self.timestamp_in_order(prev_block_timestamp, now)
        &&& self.merkle_in_order()
        &&& spec_pow_valid(self)
        &&& self.coinbase_in_place()
        &&& self.reward_in_order()
    }
}

/// What the validation of a block at the time `now` gives. A timestamp that
/// is not in order gives `Ok(false)`; otherwise broken bounds, those of the
/// transactions or that of the encoded block, give `InvalidBlock`; otherwise
/// the result says whether Merkle root, proof of work, place of the coinbase
/// and reward are in order.
pub open spec fn spec_validated(
    block: BlockModel,
    prev_block_timestamp: Option<i64>,
    now: i64,
    out: Result<bool, BlockchainError>,
) -> bool {
    if !block.timestamp_in_order(prev_block_timestamp, now) {
        out == Ok::<bool, BlockchainError>(false)
    } else if !spec_within_bounds(block.transactions) || !block.within_size() {
        out is Err && out->Err_0 is InvalidBlock
    } else {
        out == Ok::<bool, BlockchainError>(block.valid_at(prev_block_timestamp, now))
    }
}

/// The block that mining gives from what it is built of: the one block that
/// is built from these parts and mined.
pub open spec fn spec_mined_block(
    pre_block_hash: Seq<char>,
    transactions: Seq<TransactionModel>,
    height: usize,
    difficulty: u32,
    timestamp: i64,
) -> BlockModel {
    choose|block: BlockModel|
        spec_mined(block) && spec_built_from(
            block,
            pre_block_hash,
            transactions,
            height,
            difficulty,
            timestamp,
        )
}

/// Mining gives one block: a block that is built from the parts and mined is
/// the block that `spec_mined_block` names.
pub proof fn lemma_mined_block_is_one(
    block: BlockModel,
    pre_block_hash: Seq<char>,
    transactions: Seq<TransactionModel>,
    height: usize,
    difficulty: u32,
    timestamp: i64,
)
    requires
        spec_mined(block),
        spec_built_from(block, pre_block_hash, transactions, height, difficulty, timestamp),
    ensures
        block == spec_mined_block(pre_block_hash, transactions, height, difficulty, timestamp),
{
    let other = spec_mined_block(pre_block_hash, transactions, height, difficulty, timestamp);
    assert(spec_mined(other) && spec_built_from(
        other,
        pre_block_hash,
        transactions,
        height,
        difficulty,
        timestamp,
    ));
    if block.nonce < other.nonce {
        lemma_pow_of_header(block, other, block.nonce);
        assert(spec_pow_valid_at(other, block.nonce));
    }
    if other.nonce < block.nonce {
        lemma_pow_of_header(block, other, other.nonce);
        assert(spec_pow_valid_at(block, other.nonce));
    }
    lemma_pow_of_header(block, other, block.nonce);
    lemma_pow_of_header(block, other, (i64::MAX - 1) as i64);
    assert(block.hash == other.hash);
}

/// The first block of a chain that holds `transaction` alone, mined with
/// the given timestamp.
pub open spec fn spec_genesis_block(transaction: TransactionModel, timestamp: i64) -> BlockModel {
    spec_mined_block("None"@, seq![transaction], 0, 4, timestamp)
}

/// A block of the chain.
#[derive(Debug)]
pub struct Block {
    timestamp: i64,
    pre_block_hash: String,
    hash: String,
    transactions: Vec<Transaction>,
    nonce: i64,
    height: usize,
    difficulty: u32,
    merkle_root: Vec<u8>,
}

impl View for Block {
    type V = BlockModel;

    closed spec fn view(&self) -> BlockModel {
        BlockModel {
            timestamp: self.timestamp,
            pre_block_hash: self.pre_block_hash@,
            hash: self.hash@,
            transactions: transaction_models(self.transactions@),
            nonce: self.nonce,
            height: self.height,
            difficulty: self.difficulty,
            merkle_root: self.merkle_root@,
        }
    }
}

impl Clone for Block {
    fn clone(&self) -> (out: Self)
        ensures
            out@ == self@,
    {
        Block {
            timestamp: self.timestamp,
            pre_block_hash: self.pre_block_hash.clone(),
            hash: self.hash.clone(),
            transactions: copy_transactions(self.transactions.as_slice()),
            nonce: self.nonce,
            height: self.height,
            difficulty: self.difficulty,
            merkle_root: self.merkle_root.clone(),
        }
    }
}

/// The models of a list of blocks.
pub open spec fn block_models(blocks: Seq<Block>) -> Seq<BlockModel> {
    blocks.map_values(|b: Block| b@)
}

/// What mining leaves in a block: the least nonce from 0 on whose digest is
/// below the target, with the hexadecimal text of that digest; or, where no
/// nonce below the largest one passes, the largest one with the digest of the
/// last nonce tried.
pub open spec fn spec_mined(block: BlockModel) -> bool {
    &&& 0 <= block.nonce
    &&& forall|n: i64| 0 <= n < block.nonce ==> !#[trigger] spec_pow_valid_at(block, n)
    &&& if block.nonce < i64::MAX {
        spec_pow_valid(block) && block.hash == spec_hex_encode(
            spec_sha256(spec_preimage(block, block.nonce)),
        )
    } else {
        block.hash == spec_hex_encode(spec_sha256(spec_preimage(block, (i64::MAX - 1) as i64)))
    }
}

/// What `new_block` builds before mining, and keeps: every field but nonce
/// and hash.
pub open spec fn spec_built_from(
    block: BlockModel,
    pre_block_hash: Seq<char>,
    transactions: Seq<TransactionModel>,
    height: usize,
    difficulty: u32,
    timestamp: i64,
) -> bool {
    &&& block.timestamp == timestamp
    &&& block.pre_block_hash == pre_block_hash
    &&& block.transactions == transactions
    &&& block.height == height
    &&& block.difficulty == difficulty
    &&& block.merkle_in_order()
}

impl Block {
    /// A block made of its parts, as they are.
    pub fn from_parts(
        timestamp: i64,
        pre_block_hash: String,
        hash: String,
        transactions: Vec<Transaction>,
        nonce: i64,
        height: usize,
        difficulty: u32,
        merkle_root: Vec<u8>,
    ) -> (out: Block)
        ensures
            out@ == (BlockModel {
                timestamp,
                pre_block_hash: pre_block_hash@,
                hash: hash@,
                transactions: transaction_models(transactions@),
                nonce,
                height,
                difficulty,
                merkle_root: merkle_root@,
            }),
    {
        Block { timestamp, pre_block_hash, hash, transactions, nonce, height, difficulty, merkle_root }
    }

    /// Builds and mines a block on `pre_block_hash` with the time of the
    /// clock. `InvalidBlock` where there is no transaction, where the bounds
    /// of the transactions are broken, and where the mined block does not
    /// fit: no nonce passes, or the block is larger than 1 MiB. `Crypto`
    /// where the clock fails. A block that comes back has a valid proof of
    /// work.
    pub fn new_block(
        pre_block_hash: String,
        transactions: &[Transaction],
        height: usize,
        difficulty: u32,
    ) -> (out: Result<Block, BlockchainError>)
        ensures
            transactions@.len() == 0 || !spec_within_bounds(transaction_models(transactions@))
                ==> out is Err && out->Err_0 is InvalidBlock,
            out is Err ==> out->Err_0 is InvalidBlock || out->Err_0 is Crypto,
            out is Err && out->Err_0 is InvalidBlock ==> transactions@.len() == 0
                || !spec_within_bounds(transaction_models(transactions@)) || exists|timestamp: i64|
                timestamp >= 0 && !(#[trigger] spec_mined_block(
                    pre_block_hash@,
                    transaction_models(transactions@),
                    height,
                    difficulty,
                    timestamp,
                )).fits(),
            out is Ok ==> out->Ok_0@.timestamp >= 0 && out->Ok_0@ == spec_mined_block(
                pre_block_hash@,
                transaction_models(transactions@),
                height,
                difficulty,
                out->Ok_0@.timestamp,
            ) && out->Ok_0@.fits() && spec_pow_valid(out->Ok_0@) && spec_mined(out->Ok_0@) && spec_built_from(
                out->Ok_0@,
                pre_block_hash@,
                transaction_models(transactions@),
                height,
                difficulty,
                out->Ok_0@.timestamp,
            ),
    {
        if transactions.len() == 0 {
            return Err(
                BlockchainError::InvalidBlock(owned("Block must contain at least one transaction")),
            );
        }
        match Self::validate_block_constraints(transactions) {
            Ok(()) => {},
            Err(e) => { return Err(e); },
        }
        let timestamp = match current_timestamp() {
            Ok(timestamp) => timestamp,
            Err(e) => { return Err(e); },
        };
        Self::new_block_at(pre_block_hash, transactions, height, difficulty, timestamp)
    }

    /// Builds and mines a block on `pre_block_hash` with the given timestamp:
    /// `InvalidBlock` exactly where there is no transaction, the bounds of
    /// the transactions are broken, or the mined block does not fit: no
    /// nonce passes, or the block is larger than 1 MiB. A block that comes
    /// back has a valid proof of work.
    pub fn new_block_at(
        pre_block_hash: String,
        transactions: &[Transaction],
        height: usize,
        difficulty: u32,
        timestamp: i64,
    ) -> (out: Result<Block, BlockchainError>)
        ensures
            out is Ok <==> transactions@.len() > 0 && spec_within_bounds(
                transaction_models(transactions@),
            ) && spec_mined_block(
                pre_block_hash@,
                transaction_models(transactions@),
                height,
                difficulty,
                timestamp,
            ).fits(),
            out is Err ==> out->Err_0 is InvalidBlock,
            out is Ok ==> out->Ok_0@ == spec_mined_block(
                pre_block_hash@,
                transaction_models(transactions@),
                height,
                difficulty,
                timestamp,
            ) && spec_pow_valid(out->Ok_0@) && spec_mined(out->Ok_0@) && spec_built_from(
                out->Ok_0@,
                pre_block_hash@,
                transaction_models(transactions@),
                height,
                difficulty,
                timestamp,
            ),
    {
        if transactions.len() == 0 {
            return Err(
                BlockchainError::InvalidBlock(owned("Block must contain at least one transaction")),
            );
        }
        match Self::validate_block_constraints(transactions) {
            Ok(()) => {},
            Err(e) => { return Err(e); },
        }
        let merkle_root = match Self::calculate_merkle_root(transactions) {
            Ok(root) => root,
            Err(e) => { return Err(e); },
        };
        let mut block = Block {
            timestamp,
            pre_block_hash,
            hash: String::new(),
            transactions: copy_transactions(transactions),
            nonce: 0,
            height,
            difficulty,
            merkle_root,
        };
        let pow = ProofOfWork::new_proof_of_work(block.clone());
        let (nonce, hash) = pow.run();
        block.nonce = nonce;
        block.hash = hash;
        proof {
            let mined = block@;
            assert forall|n: i64| 0 <= n < mined.nonce implies !#[trigger] spec_pow_valid_at(
                mined,
                n,
            ) by {
                lemma_pow_of_header(mined, pow.spec_block(), n);
            }
            lemma_pow_of_header(mined, pow.spec_block(), mined.nonce);
            lemma_pow_of_header(mined, pow.spec_block(), (i64::MAX - 1) as i64);
            lemma_mined_block_is_one(
                mined,
                mined.pre_block_hash,
                transaction_models(transactions@),
                height,
                difficulty,
                timestamp,
            );
        }
        if nonce >= crate::chain::proof_of_work::MAX_NONCE {
            return Err(BlockchainError::InvalidBlock(owned("No nonce passes")));
        }
        if block.encoded().len() > MAX_BLOCK_SIZE {
            return Err(BlockchainError::InvalidBlock(owned("Block too large")));
        }
        Ok(block)
    }

    /// The block at the front of `bytes`; what follows it is ignored.
    /// `Serialization` where the bytes hold no block.
    pub fn deserialize(bytes: &[u8]) -> (out: Result<Block, BlockchainError>)
        ensures
            match BlockModel::parse(bytes@) {
                Some((value, rest)) => out is Ok && out->Ok_0@ == value,
                None => out is Err && out->Err_0 is Serialization,
            },
    {
        assert(bytes@.skip(0) =~= bytes@);
        let failed = || -> (e: BlockchainError)
            ensures
                e is Serialization,
            { BlockchainError::Serialization(owned("Deserialization failed")) };
        let (timestamp, pos1) = match decode_i64(bytes, 0) {
            Some(found) => found,
            None => { return Err(failed()); },
        };
        let (pre_block_hash, pos2) = match decode_text(bytes, pos1) {
            Some(found) => found,
            None => { return Err(failed()); },
        };
        let (hash, pos3) = match decode_text(bytes, pos2) {
            Some(found) => found,
            None => { return Err(failed()); },
        };
        let (transactions, pos4) = match decode_transactions(bytes, pos3) {
            Some(found) => found,
            None => { return Err(failed()); },
        };
        let (nonce, pos5) = match decode_i64(bytes, pos4) {
            Some(found) => found,
            None => { return Err(failed()); },
        };
        let (height, pos6) = match decode_u64(bytes, pos5) {
            Some(found) => found,
            None => { return Err(failed()); },
        };
        let (difficulty, pos7) = match decode_u64(bytes, pos6) {
            Some(found) => found,
            None => { return Err(failed()); },
        };
        let (merkle_root, pos8) = match decode_bytes(bytes, pos7) {
            Some(found) => found,
            None => { return Err(failed()); },
        };
        if height > usize::MAX as u64 || difficulty > u32::MAX as u64 {
            return Err(failed());
        }
        Ok(
            Block {
                timestamp,
                pre_block_hash,
                hash,
                transactions,
                nonce,
                height: height as usize,
                difficulty: difficulty as u32,
                merkle_root,
            },
        )
    }

    /// Every part of a block in memory can be held in memory.
    fn note_well_formed(&self)
        ensures
            self@.wf(),
    {
        let _ = self.pre_block_hash.as_str().as_bytes().len();
        let _ = self.hash.as_str().as_bytes().len();
        let _ = self.merkle_root.len();
        let count = self.transactions.len();
        let mut i: usize = 0;
        while i < count
            invariant
                i <= count,
                count == self.transactions@.len(),
                forall|k: int| 0 <= k < i ==> (#[trigger] self.transactions@[k])@.wf(),
            decreases count - i,
        {
            self.transactions[i].note_well_formed();
            i += 1;
        }
        assert(forall|k: int|
            0 <= k < self@.transactions.len() ==> self@.transactions[k]
                == self.transactions@[k]@);
    }

    /// The encoding of the block. Read back, it gives the block.
    pub fn encoded(&self) -> (out: Vec<u8>)
        ensures
            out@ == self@.encoding(),
            BlockModel::parse(out@) == Some((self@, Seq::<u8>::empty())),
    {
        self.note_well_formed();
        proof {
            self@.lemma_round_trip(Seq::empty());
            assert(self@.encoding() + Seq::<u8>::empty() =~= self@.encoding());
        }
        let mut bytes: Vec<u8> = Vec::new();
        encode_i64(self.timestamp, &mut bytes);
        encode_text(self.pre_block_hash.as_str(), &mut bytes);
        encode_text(self.hash.as_str(), &mut bytes);
        encode_transactions(self.transactions.as_slice(), &mut bytes);
        encode_i64(self.nonce, &mut bytes);
        encode_u64(self.height as u64, &mut bytes);
        encode_u64(self.difficulty as u64, &mut bytes);
        encode_bytes(self.merkle_root.as_slice(), &mut bytes);
        assert(bytes@ =~= self@.encoding());
        bytes
    }

    /// The encoding of the block; it never fails. Read back, it gives the
    /// block.
    pub fn serialize(&self) -> (out: Result<Vec<u8>, BlockchainError>)
        ensures
            out is Ok,
            out->Ok_0@ == self@.encoding(),
            BlockModel::parse(out->Ok_0@) == Some((self@, Seq::<u8>::empty())),
    {
        Ok(self.encoded())
    }

    /// The transactions.
    pub fn get_transactions(&self) -> (out: &[Transaction])
        ensures
            transaction_models(out@) == self@.transactions,
            out@.len() == self@.transactions.len(),
    {
        self.transactions.as_slice()
    }

    /// The hash of the parent, or `"None"` for the first block.
    pub fn get_pre_block_hash(&self) -> (out: String)
        ensures
            out@ == self@.pre_block_hash,
    {
        self.pre_block_hash.clone()
    }

    /// The hash.
    pub fn get_hash(&self) -> (out: &str)
        ensures
            out@ == self@.hash,
    {
        self.hash.as_str()
    }

    /// The UTF-8 bytes of the hash.
    pub fn get_hash_bytes(&self) -> (out: Vec<u8>)
        ensures
            out@ == vstd::utf8::encode_utf8(self@.hash),
    {
        vstd::slice::slice_to_vec(self.hash.as_str().as_bytes())
    }

    /// The timestamp, in milliseconds since the Unix epoch.
    pub fn get_timestamp(&self) -> (out: i64)
        ensures
            out == self@.timestamp,
    {
        self.timestamp
    }

    /// The height.
    pub fn get_height(&self) -> (out: usize)
        ensures
            out == self@.height,
    {
        self.height
    }

    /// The difficulty: the number of leading zero bits asked of the digest.
    pub fn get_difficulty(&self) -> (out: u32)
        ensures
            out == self@.difficulty,
    {
        self.difficulty
    }

    /// The Merkle root.
    pub fn get_merkle_root(&self) -> (out: &[u8])
        ensures
            out@ == self@.merkle_root,
    {
        self.merkle_root.as_slice()
    }

    /// The nonce.
    pub fn get_nonce(&self) -> (out: i64)
        ensures
            out == self@.nonce,
    {
        self.nonce
    }

    /// SHA-256 of the identifiers of the transactions, one after the other.
    pub fn hash_transactions(&self) -> (out: Vec<u8>)
        ensures
            out@ == spec_sha256(spec_transaction_ids(self@.transactions).flatten()),
    {
        let mut txhashs: Vec<u8> = Vec::new();
        let ghost ids = spec_transaction_ids(self@.transactions);
        let mut i: usize = 0;
        assert(ids.take(0) =~= Seq::<Seq<u8>>::empty());
        while i < self.transactions.len()
            invariant
                i <= self.transactions@.len(),
                ids == spec_transaction_ids(self@.transactions),
                ids.len() == self.transactions@.len(),
                txhashs@ == ids.take(i as int).flatten(),
            decreases self.transactions@.len() - i,
        {
            txhashs.extend_from_slice(self.transactions[i].get_id());
            proof {
                assert(ids.take(i + 1) =~= ids.take(i as int).push(ids[i as int]));
                ids.take(i as int).lemma_flatten_push(ids[i as int]);
                assert(ids[i as int] == self.transactions@[i as int]@.id);
            }
            i += 1;
        }
        assert(ids.take(ids.len() as int) =~= ids);
        sha256_digest(txhashs.as_slice())
    }

    /// The first block of a chain: parent `"None"`, height 0, the initial
    /// difficulty, and `transaction` alone, mined with the time of the clock;
    /// see `new_block`.
    pub fn generate_genesis_block(transaction: &Transaction) -> (out: Result<
        Block,
        BlockchainError,
    >)
        ensures
            !spec_within_bounds(seq![transaction@]) ==> out is Err && out->Err_0 is InvalidBlock,
            out is Err ==> out->Err_0 is InvalidBlock || out->Err_0 is Crypto,
            out is Err && out->Err_0 is InvalidBlock ==> !spec_within_bounds(seq![transaction@])
                || exists|timestamp: i64|
                timestamp >= 0 && !(#[trigger] spec_genesis_block(
                    transaction@,
                    timestamp,
                )).fits(),
            out is Ok ==> out->Ok_0@.timestamp >= 0 && out->Ok_0@ == spec_genesis_block(
                transaction@,
                out->Ok_0@.timestamp,
            ) && out->Ok_0@.fits() && spec_pow_valid(out->Ok_0@) && spec_mined(out->Ok_0@) && spec_built_from(
                out->Ok_0@,
                "None"@,
                seq![transaction@],
                0,
                4,
                out->Ok_0@.timestamp,
            ),
    {
        let mut transactions: Vec<Transaction> = Vec::new();
        transactions.push(transaction.clone());
        assert(transaction_models(transactions@) =~= seq![transaction@]);
        let genesis_difficulty = DifficultyAdjustment::get_initial_difficulty();
        let out = Block::new_block(owned("None"), transactions.as_slice(), 0, genesis_difficulty);
        proof {
            if out is Err && out->Err_0 is InvalidBlock && spec_within_bounds(seq![transaction@]) {
                let timestamp = choose|timestamp: i64|
                    timestamp >= 0 && !(#[trigger] spec_mined_block(
                        "None"@,
                        seq![transaction@],
                        0,
                        4,
                        timestamp,
                    )).fits();
                assert(!spec_genesis_block(transaction@, timestamp).fits());
            }
        }
        out
    }

    /// The first block of a chain with the given timestamp: `InvalidBlock`
    /// exactly where the bounds of the transaction are broken or the mined
    /// block does not fit.
    pub fn generate_genesis_block_at(transaction: &Transaction, timestamp: i64) -> (out: Result<
        Block,
        BlockchainError,
    >)
        ensures
            out is Ok <==> spec_within_bounds(seq![transaction@]) && spec_genesis_block(
                transaction@,
                timestamp,
            ).fits(),
            out is Err ==> out->Err_0 is InvalidBlock,
            out is Ok ==> out->Ok_0@ == spec_genesis_block(transaction@, timestamp)
                && spec_pow_valid(out->Ok_0@) && spec_mined(out->Ok_0@) && spec_built_from(
                out->Ok_0@,
                "None"@,
                seq![transaction@],
                0,
                4,
                timestamp,
            ),
    {
        let mut transactions: Vec<Transaction> = Vec::new();
        transactions.push(transaction.clone());
        assert(transaction_models(transactions@) =~= seq![transaction@]);
        let genesis_difficulty = DifficultyAdjustment::get_initial_difficulty();
        Block::new_block_at(owned("None"), transactions.as_slice(), 0, genesis_difficulty, timestamp)
    }

    /// A block that is not mined: nonce 0 and the hash `"test_hash"`.
    /// `InvalidBlock` exactly where there is no transaction.
    pub fn new_test_block(
        timestamp: i64,
        pre_block_hash: String,
        transactions: &[Transaction],
        height: usize,
        difficulty: u32,
    ) -> (out: Result<Block, BlockchainError>)
        ensures
            out is Ok <==> transactions@.len() > 0,
            out is Err ==> out->Err_0 is InvalidBlock,
            out is Ok ==> out->Ok_0@.nonce == 0 && out->Ok_0@.hash == "test_hash"@
                && spec_built_from(
                out->Ok_0@,
                pre_block_hash@,
                transaction_models(transactions@),
                height,
                difficulty,
                timestamp,
            ),
    {
        if transactions.len() == 0 {
            return Err(
                BlockchainError::InvalidBlock(owned("Block must contain at least one transaction")),
            );
        }
        let merkle_root = match Self::calculate_merkle_root(transactions) {
            Ok(root) => root,
            Err(e) => { return Err(e); },
        };
        Ok(
            Block {
                timestamp,
                pre_block_hash,
                hash: owned("test_hash"),
                transactions: copy_transactions(transactions),
                nonce: 0,
                height,
                difficulty,
                merkle_root,
            },
        )
    }

    /// The Merkle root of the identifiers of `transactions`.
    fn calculate_merkle_root(transactions: &[Transaction]) -> (out: Result<
        Vec<u8>,
        BlockchainError,
    >)
        ensures
            transactions@.len() == 0 ==> out is Err && out->Err_0 is InvalidBlock,
            transactions@.len() > 0 ==> out is Ok && out->Ok_0@ == spec_merkle_root(
                spec_transaction_ids(transaction_models(transactions@)),
            ),
    {
        let transaction_hashes = transaction_ids(transactions);
        MerkleTree::calculate_merkle_root(transaction_hashes.as_slice())
    }

    /// Whether the Merkle root of the block is the one that its transactions
    /// give; `InvalidBlock` where it has none.
    pub fn verify_merkle_root(&self) -> (out: Result<bool, BlockchainError>)
        ensures
            self@.transactions.len() == 0 ==> out is Err && out->Err_0 is InvalidBlock,
            self@.transactions.len() > 0 ==> out is Ok && out->Ok_0 == self@.merkle_in_order(),
    {
        match Self::calculate_merkle_root(self.transactions.as_slice()) {
            Ok(calculated_root) => Ok(
                bytes_eq(calculated_root.as_slice(), self.merkle_root.as_slice()),
            ),
            Err(e) => Err(e),
        }
    }

    /// The Merkle proof of the transaction at `transaction_index`;
    /// `InvalidBlock` where there is none. The proof is valid and leads to
    /// the Merkle root that the transactions give.
    pub fn generate_merkle_proof(&self, transaction_index: usize) -> (out: Result<
        MerkleProof,
        BlockchainError,
    >)
        ensures
            transaction_index >= self@.transactions.len() ==> out is Err
                && out->Err_0 is InvalidBlock,
            transaction_index < self@.transactions.len() ==> out is Ok && out->Ok_0.spec_valid()
                && out->Ok_0.transaction_hash@ == self@.transactions[transaction_index as int].id
                && out->Ok_0.transaction_index == transaction_index && out->Ok_0.merkle_root@
                == self@.computed_merkle_root(),
    {
        if transaction_index >= self.transactions.len() {
            return Err(BlockchainError::InvalidBlock(owned("Transaction index out of bounds")));
        }
        let merkle_tree = match MerkleTree::new(self.transactions.as_slice()) {
            Ok(tree) => tree,
            Err(e) => { return Err(e); },
        };
        let root = merkle_tree.get_root_hash();
        merkle_tree.generate_proof(transaction_index)
    }

    /// Whether `proof` names the Merkle root of the block and is valid.
    pub fn verify_merkle_proof(&self, proof: &MerkleProof) -> (out: Result<bool, BlockchainError>)
        ensures
            out is Ok,
            out->Ok_0 == (proof.merkle_root@ == self@.merkle_root && proof.spec_valid()),
    {
        if !bytes_eq(proof.merkle_root.as_slice(), self.merkle_root.as_slice()) {
            return Ok(false);
        }
        MerkleTree::verify_proof(proof)
    }

    /// `Ok` exactly where the bounds on a block's transactions hold, else
    /// `InvalidBlock`: at most 4,000 transactions, none above 100 KiB, and
    /// no more than 1 MiB in all. The bound of 1 MiB on the encoded block,
    /// which holds more than its transactions, is tested where the block
    /// is: by `new_block_at` on the mined block, by `validate_block_at` on
    /// the block that came.
    pub fn validate_block_constraints(transactions: &[Transaction]) -> (out: Result<
        (),
        BlockchainError,
    >)
        ensures
            out is Ok <==> spec_within_bounds(transaction_models(transactions@)),
            out is Err ==> out->Err_0 is InvalidBlock,
    {
        let ghost models = transaction_models(transactions@);
        if transactions.len() > MAX_TRANSACTIONS_PER_BLOCK {
            return Err(BlockchainError::InvalidBlock(owned("Too many transactions in block")));
        }
        let mut total_size: usize = 0;
        let mut i: usize = 0;
        assert(models.take(0) =~= Seq::<TransactionModel>::empty());
        while i < transactions.len()
            invariant
                i <= transactions@.len(),
                transactions@.len() <= MAX_TRANSACTIONS_PER_BLOCK,
                models == transaction_models(transactions@),
                models.len() == transactions@.len(),
                total_size == spec_total_size(models.take(i as int)),
                total_size <= i * MAX_TRANSACTION_SIZE,
                forall|k: int|
                    0 <= k < i ==> (#[trigger] models[k]).encoding().len() <= MAX_TRANSACTION_SIZE,
            decreases transactions@.len() - i,
        {
            let encoded = transactions[i].encoded();
            let tx_size = encoded.len();
            proof {
                assert(models[i as int] == transactions@[i as int]@);
                assert(models.take(i + 1).drop_last() =~= models.take(i as int));
                assert(models.take(i + 1).last() == models[i as int]);
            }
            if tx_size > MAX_TRANSACTION_SIZE {
                return Err(BlockchainError::InvalidBlock(owned("Transaction too large")));
            }
            assert(total_size + tx_size <= (i + 1) * MAX_TRANSACTION_SIZE) by (nonlinear_arith)
                requires
                    total_size <= i * MAX_TRANSACTION_SIZE,
                    tx_size <= MAX_TRANSACTION_SIZE,
            ;
            assert((i + 1) * MAX_TRANSACTION_SIZE <= 4000 * 102_400) by (nonlinear_arith)
                requires
                    i + 1 <= 4000,
                    MAX_TRANSACTION_SIZE == 102_400,
            ;
            total_size = total_size + tx_size;
            i += 1;
        }
        assert(models.take(models.len() as int) =~= models);
        if total_size > MAX_BLOCK_SIZE {
            return Err(BlockchainError::InvalidBlock(owned("Block too large")));
        }
        Ok(())
    }

    /// Validates the block against the clock; see `validate_block_at`.
    /// `Crypto` where the clock fails, `InvalidBlock` where the timestamp is
    /// in order and the bounds are broken.
    pub fn validate_block(&self, prev_block_timestamp: Option<i64>) -> (out: Result<
        bool,
        BlockchainError,
    >)
        ensures
            (out is Err && out->Err_0 is Crypto) || exists|now: i64|
                now >= 0 && #[trigger] spec_validated(self@, prev_block_timestamp, now, out),
    {
        let now = match current_timestamp() {
            Ok(now) => now,
            Err(e) => { return Err(e); },
        };
        let out = self.validate_block_at(prev_block_timestamp, now);
        assert(spec_validated(self@, prev_block_timestamp, now, out));
        out
    }

    /// Validates the block at the time `now`, as far as the block alone can
    /// be: a timestamp that is not in order gives `Ok(false)`; otherwise
    /// broken bounds give `InvalidBlock`; otherwise the result says whether
    /// Merkle root, proof of work, place of the coinbase and reward are in
    /// order. Whether its transactions are valid is a matter of the chain
    /// that it stands on: `Blockchain::validate_block_at` checks that too.
    pub fn validate_block_at(&self, prev_block_timestamp: Option<i64>, now: i64) -> (out: Result<
        bool,
        BlockchainError,
    >)
        ensures
            spec_validated(self@, prev_block_timestamp, now, out),
    {
        if !self.validate_timestamp_at(prev_block_timestamp, now) {
            return Ok(false);
        }
        match Self::validate_block_constraints(self.transactions.as_slice()) {
            Ok(()) => {},
            Err(e) => { return Err(e); },
        }
        if self.encoded().len() > MAX_BLOCK_SIZE {
            return Err(BlockchainError::InvalidBlock(owned("Block too large")));
        }
        if self.transactions.len() == 0 {
            return Ok(false);
        }
        match self.verify_merkle_root() {
            Ok(true) => {},
            _ => { return Ok(false); },
        }
        if !ProofOfWork::validate(self) {
            return Ok(false);
        }
        if !self.transactions[0].is_coinbase() {
            return Ok(false);
        }
        let mut i: usize = 1;
        while i < self.transactions.len()
            invariant
                1 <= i <= self.transactions@.len(),
                self@.timestamp_in_order(prev_block_timestamp, now),
                spec_within_bounds(self@.transactions),
                self@.within_size(),
                self@.merkle_in_order(),
                spec_pow_valid(self@),
                self@.transactions[0].is_coinbase(),
                forall|k: int|
                    0 < k < i ==> !(#[trigger] self@.transactions[k]).is_coinbase(),
            decreases self.transactions@.len() - i,
        {
            if self.transactions[i].is_coinbase() {
                assert(self@.transactions[i as int].is_coinbase());
                return Ok(false);
            }
            i += 1;
        }
        Ok(self.reward_matches())
    }

    /// Whether the coinbase pays the block reward plus the fees of the other
    /// transactions. Both sums are taken in 128 bits, which they cannot leave.
    fn reward_matches(&self) -> (ok: bool)
        requires
            self@.transactions.len() > 0,
        ensures
            ok == self@.reward_in_order(),
    {
        let paid = Self::wide_output_sum(&self.transactions[0]);
        let fees = self.wide_fees_after_first();
        paid == fees + INITIAL_BLOCK_REWARD as u128
    }

    /// The sum of the outputs of a transaction, in 128 bits.
    fn wide_output_sum(transaction: &Transaction) -> (out: u128)
        ensures
            out == transaction@.output_sum(),
    {
        let outputs = transaction.get_vout();
        let ghost models = transaction@.vout;
        let mut total: u128 = 0;
        let mut i: usize = 0;
        assert(models.take(0) =~= Seq::<crate::chain::transaction::OutputModel>::empty());
        while i < outputs.len()
            invariant
                i <= outputs@.len(),
                models == crate::chain::transaction::output_models(outputs@),
                models.len() == outputs@.len(),
                total == crate::chain::transaction::sum_values(models.take(i as int)),
                total <= i * 0xffff_ffff_ffff_ffff,
            decreases outputs@.len() - i,
        {
            proof {
                assert(models.take(i + 1).drop_last() =~= models.take(i as int));
                assert(models.take(i + 1).last() == outputs@[i as int]@);
            }
            let value = outputs[i].get_value() as u128;
            assert(total + value <= (i + 1) * 0xffff_ffff_ffff_ffff && (i + 1)
                * 0xffff_ffff_ffff_ffff <= 0xffff_ffff_ffff_ffff * 0xffff_ffff_ffff_ffff)
                by (nonlinear_arith)
                requires
                    total <= i * 0xffff_ffff_ffff_ffff,
                    value <= 0xffff_ffff_ffff_ffff,
                    i + 1 <= 0xffff_ffff_ffff_ffff,
            ;
            total = total + value;
            i += 1;
        }
        assert(models.take(models.len() as int) =~= models);
        total
    }

    /// The fees of all transactions but the first, in 128 bits.
    fn wide_fees_after_first(&self) -> (out: u128)
        ensures
            out == spec_fees_after_first(self@.transactions),
            out <= 0xffff_ffff_ffff_ffff * 0xffff_ffff_ffff_ffff,
    {
        let ghost models = self@.transactions;
        let mut total: u128 = 0;
        let mut i: usize = 0;
        assert(models.take(0) =~= Seq::<TransactionModel>::empty());
        while i < self.transactions.len()
            invariant
                i <= self.transactions@.len(),
                models == self@.transactions,
                models.len() == self.transactions@.len(),
                total == spec_fees_after_first(models.take(i as int)),
                total <= i * 0xffff_ffff_ffff_ffff,
            decreases self.transactions@.len() - i,
        {
            proof {
                assert(models.take(i + 1).drop_last() =~= models.take(i as int));
                assert(models.take(i + 1).last() == self.transactions@[i as int]@);
            }
            let fee = self.transactions[i].get_fee() as u128;
            assert(total + fee <= (i + 1) * 0xffff_ffff_ffff_ffff && (i + 1)
                * 0xffff_ffff_ffff_ffff <= 0xffff_ffff_ffff_ffff * 0xffff_ffff_ffff_ffff && total
                <= (i + 1) * 0xffff_ffff_ffff_ffff) by (nonlinear_arith)
                requires
                    total <= i * 0xffff_ffff_ffff_ffff,
                    fee <= 0xffff_ffff_ffff_ffff,
                    i + 1 <= 0xffff_ffff_ffff_ffff,
            ;
            if i > 0 {
                total = total + fee;
            }
            i += 1;
        }
        assert(models.take(models.len() as int) =~= models);
        assert(total <= 0xffff_ffff_ffff_ffff * 0xffff_ffff_ffff_ffff) by (nonlinear_arith)
            requires
                total <= i * 0xffff_ffff_ffff_ffff,
                i <= 0xffff_ffff_ffff_ffff,
        ;
        total
    }

    /// Whether the timestamp is at most two hours ahead of `now` and after
    /// that of the parent, where one is given.
    fn validate_timestamp_at(&self, prev_block_timestamp: Option<i64>, now: i64) -> (ok: bool)
        ensures
            ok == self@.timestamp_in_order(prev_block_timestamp, now),
    {
        let ahead = match now.checked_add(MAX_FUTURE_TIME) {
            Some(limit) => self.timestamp > limit,
            None => false,
        };
        if ahead {
            return false;
        }
        match prev_block_timestamp {
            Some(prev_timestamp) => self.timestamp > prev_timestamp,
            None => true,
        }
    }

    /// The size of the encoded block, in bytes.
    pub fn get_block_size(&self) -> (out: Result<usize, BlockchainError>)
        ensures
            out is Ok,
            out->Ok_0 == self@.encoding().len(),
    {
        Ok(self.encoded().len())
    }

    /// The fees of all transactions but the first, or `None` where their sum
    /// does not fit in 64 bits.
    pub fn checked_fees_after_first(&self) -> (out: Option<u64>)
        ensures
            match out {
                Some(fees) => fees == spec_fees_after_first(self@.transactions),
                None => spec_fees_after_first(self@.transactions) > u64::MAX,
            },
    {
        let ghost models = self@.transactions;
        let mut total: u64 = 0;
        let mut i: usize = 0;
        assert(models.take(0) =~= Seq::<TransactionModel>::empty());
        while i < self.transactions.len()
            invariant
                i <= self.transactions@.len(),
                models == self@.transactions,
                models.len() == self.transactions@.len(),
                total == spec_fees_after_first(models.take(i as int)),
            decreases self.transactions@.len() - i,
        {
            proof {
                assert(models.take(i + 1).drop_last() =~= models.take(i as int));
                assert(models.take(i + 1).last() == self.transactions@[i as int]@);
            }
            if i > 0 {
                match total.checked_add(self.transactions[i].get_fee()) {
                    Some(sum) => { total = sum; },
                    None => {
                        proof {
                            lemma_fees_after_first_grows(models, i + 1);
                        }
                        return None;
                    },
                }
            }
            i += 1;
        }
        assert(models.take(models.len() as int) =~= models);
        Some(total)
    }

    /// The fees of all transactions but the first; the largest amount that
    /// can be held where their sum is larger.
    pub fn get_total_fees(&self) -> (fees: u64)
        ensures
            fees == (if spec_fees_after_first(self@.transactions) <= u64::MAX {
                spec_fees_after_first(self@.transactions)
            } else {
                u64::MAX as int
            }),
    {
        match self.checked_fees_after_first() {
            Some(fees) => fees,
            None => u64::MAX,
        }
    }

    /// Whether the outputs of the coinbase add up to `expected_reward`.
    /// `InvalidBlock` where the block has no transaction or the first is no
    /// coinbase, `Transaction` where the outputs do not fit in 64 bits.
    pub fn validate_coinbase_reward(&self, expected_reward: u64) -> (out: Result<
        bool,
        BlockchainError,
    >)
        ensures
            self@.transactions.len() == 0 || !self@.transactions[0].is_coinbase() ==> out is Err
                && out->Err_0 is InvalidBlock,
            self@.transactions.len() > 0 && self@.transactions[0].is_coinbase() ==> (
            if self@.transactions[0].output_sum() <= u64::MAX {
                out is Ok && out->Ok_0 == (self@.transactions[0].output_sum() == expected_reward)
            } else {
                out is Err && out->Err_0 is Transaction
            }),
    {
        if self.transactions.len() == 0 {
            return Err(BlockchainError::InvalidBlock(owned("Block has no transactions")));
        }
        let coinbase = &self.transactions[0];
        if !coinbase.is_coinbase() {
            return Err(BlockchainError::InvalidBlock(owned("First transaction is not coinbase")));
        }
        match coinbase.get_output_value() {
            Ok(coinbase_value) => Ok(coinbase_value == expected_reward),
            Err(e) => Err(e),
        }
    }
}

/// The fees after the first of a prefix are at most those of the whole.
pub proof fn lemma_fees_after_first_grows(transactions: Seq<TransactionModel>, k: int)
    requires
        0 <= k <= transactions.len(),
    ensures
        0 <= spec_fees_after_first(transactions.take(k)) <= spec_fees_after_first(transactions),
    decreases transactions.len(),
{
    if transactions.len() == 0 {
        assert(transactions.take(k) =~= transactions);
    } else if k == transactions.len() {
        assert(transactions.take(k) =~= transactions);
        if transactions.len() > 1 {
            lemma_fees_after_first_grows(transactions.drop_last(), k - 1);
        }
    } else {
        lemma_fees_after_first_grows(transactions.drop_last(), k);
        assert(transactions.drop_last().take(k) =~= transactions.take(k));
    }
}

} // verus!
