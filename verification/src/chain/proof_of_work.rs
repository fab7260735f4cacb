//! Proof of work: a block is valid when the SHA-256 digest of its header,
//! read as a big-endian number, is below 2^(256 - difficulty).

use crate::chain::block::{Block, BlockModel};
use crate::utils::crypto::{hex_encode, sha256_digest, spec_hex_encode, spec_sha256};
use crate::utils::serialization::{
    push_i64_be, push_u32_be, push_u64_be, spec_i64_be, spec_u32_be, spec_u64_be,
};
use vstd::arithmetic::power2::pow2;
use vstd::prelude::*;

verus! {

/// The largest nonce; the search stops there.
pub const MAX_NONCE: i64 = i64::MAX;

/// The number that a byte string stands for, highest byte first.
pub open spec fn spec_be_value(bytes: Seq<u8>) -> nat
    decreases bytes.len(),
{
    if bytes.len() == 0 {
        0
    } else {
        spec_be_value(bytes.drop_last()) * 256 + bytes.last() as nat
    }
}

/// The target of a difficulty: 2^(256 - difficulty), and 0 for a difficulty
/// above 256, which no digest can meet.
pub open spec fn spec_target(difficulty: u32) -> nat {
    if difficulty <= 256 {
        pow2((256 - difficulty) as nat)
    } else {
        0
    }
}

/// The bytes that are hashed for a nonce: parent hash, Merkle root, then
/// timestamp, height, difficulty and nonce, each highest byte first.
#[verifier::opaque]
pub open spec fn spec_preimage(block: BlockModel, nonce: i64) -> Seq<u8> {
    vstd::utf8::encode_utf8(block.pre_block_hash) + block.merkle_root + spec_i64_be(
        block.timestamp,
    ) + spec_u64_be(block.height as u64) + spec_u32_be(block.difficulty) + spec_i64_be(nonce)
}

/// Whether the digest of the block's header with `nonce` is below the target
/// of the block's difficulty.
pub open spec fn spec_pow_valid_at(block: BlockModel, nonce: i64) -> bool {
    spec_be_value(spec_sha256(spec_preimage(block, nonce))) < spec_target(block.difficulty)
}

/// Whether the digest of the block's header with the block's nonce is below
/// the target of the block's difficulty.
pub open spec fn spec_pow_valid(block: BlockModel) -> bool {
    spec_pow_valid_at(block, block.nonce)
}

/// The proof of work of a block depends on the fields of its header alone:
/// not on its hash, nor on its transactions but through the Merkle root.
pub proof fn lemma_pow_of_header(a: BlockModel, b: BlockModel, nonce: i64)
    requires
        a.pre_block_hash == b.pre_block_hash,
        a.merkle_root == b.merkle_root,
        a.timestamp == b.timestamp,
        a.height == b.height,
        a.difficulty == b.difficulty,
    ensures
        spec_pow_valid_at(a, nonce) == spec_pow_valid_at(b, nonce),
        spec_preimage(a, nonce) == spec_preimage(b, nonce),
{
    reveal(spec_preimage);
}

/// Compares with `num_bigint::BigInt`: whether the number that `bytes` stand
/// for (`BigInt::from_bytes_be`, sign plus) is below 1 shifted left by
/// `shift` bits.
#[verifier::external_body]
fn below_power_of_two(bytes: &[u8], shift: u32) -> (below: bool)
    ensures
        below == (spec_be_value(bytes@) < pow2(shift as nat)),
{
    let target = num_bigint::BigInt::from(1u8) << shift;
    num_bigint::BigInt::from_bytes_be(num_bigint::Sign::Plus, bytes) < target
}

/// A block to mine or to check, with its difficulty.
pub struct ProofOfWork {
    block: Block,
    difficulty: u32,
}

impl ProofOfWork {
    /// The block.
    pub closed spec fn spec_block(&self) -> BlockModel {
        self.block@
    }

    /// The difficulty.
    pub closed spec fn spec_difficulty(&self) -> u32 {
        self.difficulty
    }

    #[verifier::type_invariant]
    closed spec fn wf(&self) -> bool {
        self.difficulty == self.block@.difficulty
    }

    /// The target: 2^(256 - difficulty).
    pub open spec fn spec_target(&self) -> nat {
        spec_target(self.spec_difficulty())
    }

    /// The proof of work of `block` at the block's difficulty.
    pub fn new_proof_of_work(block: Block) -> (out: ProofOfWork)
        ensures
            out.spec_block() == block@,
            out.spec_difficulty() == block@.difficulty,
    {
        let difficulty = block.get_difficulty();
        ProofOfWork { block, difficulty }
    }

    /// Whether a digest is below the target of `difficulty`.
    fn meets_target(hash: &[u8], difficulty: u32) -> (ok: bool)
        ensures
            ok == (spec_be_value(hash@) < spec_target(difficulty)),
    {
        if difficulty > 256 {
            false
        } else {
            below_power_of_two(hash, 256 - difficulty)
        }
    }

    /// Whether the proof of work of `block` is valid.
    pub fn validate(block: &Block) -> (ok: bool)
        ensures
            ok == spec_pow_valid(block@),
    {
        let pow = ProofOfWork::new_proof_of_work(block.clone());
        let data = pow.prepare_data(block.get_nonce());
        let hash = sha256_digest(data.as_slice());
        Self::meets_target(hash.as_slice(), pow.difficulty)
    }

    /// The bytes that are hashed for `nonce`.
    pub fn prepare_data(&self, nonce: i64) -> (out: Vec<u8>)
        ensures
            out@ == spec_preimage(self.spec_block(), nonce),
            self.spec_difficulty() == self.spec_block().difficulty,
    {
        proof {
            use_type_invariant(self);
        }
        let pre_block_hash = self.block.get_pre_block_hash();
        let mut data_bytes: Vec<u8> = Vec::new();
        data_bytes.extend_from_slice(pre_block_hash.as_str().as_bytes());
        data_bytes.extend_from_slice(self.block.get_merkle_root());
        push_i64_be(self.block.get_timestamp(), &mut data_bytes);
        push_u64_be(self.block.get_height() as u64, &mut data_bytes);
        push_u32_be(self.difficulty, &mut data_bytes);
        push_i64_be(nonce, &mut data_bytes);
        reveal(spec_preimage);
        assert(data_bytes@ =~= spec_preimage(self.spec_block(), nonce));
        data_bytes
    }

    /// Tries the nonces from 0 on and stops at the first whose digest is
    /// below the target: the result is that nonce and the hexadecimal text of
    /// its digest. Where no nonce below the largest one passes, the result is
    /// the largest nonce and the digest of the last one tried.
    pub fn run(&self) -> (out: (i64, String))
        ensures
            0 <= out.0,
            forall|n: i64| 0 <= n < out.0 ==> !#[trigger] spec_pow_valid_at(self.spec_block(), n),
            out.0 < MAX_NONCE ==> spec_pow_valid_at(self.spec_block(), out.0) && out.1@ == spec_hex_encode(spec_sha256(spec_preimage(self.spec_block(), out.0))),
            out.0 == MAX_NONCE ==> out.1@ == spec_hex_encode(
                spec_sha256(spec_preimage(self.spec_block(), (MAX_NONCE - 1) as i64)),
            ),
    {
        proof {
            use_type_invariant(self);
        }
        let mut nonce: i64 = 0;
        let mut hash: Vec<u8> = Vec::new();
        let ghost block = self.spec_block();
        while nonce < MAX_NONCE
            invariant_except_break
                0 <= nonce <= MAX_NONCE,
                nonce > 0 ==> hash@ == spec_sha256(spec_preimage(block, (nonce - 1) as i64)),
            invariant
                block == self.spec_block(),
                self.spec_difficulty() == block.difficulty,
                forall|n: i64| 0 <= n < nonce ==> !#[trigger] spec_pow_valid_at(block, n),
            ensures
                0 <= nonce <= MAX_NONCE,
                nonce < MAX_NONCE ==> spec_pow_valid_at(block, nonce) && hash@
                    == spec_sha256(spec_preimage(block, nonce)),
                nonce == MAX_NONCE ==> hash@ == spec_sha256(
                    spec_preimage(block, (MAX_NONCE - 1) as i64),
                ),
            decreases MAX_NONCE - nonce,
        {
            let data = self.prepare_data(nonce);
            hash = sha256_digest(data.as_slice());
            if Self::meets_target(hash.as_slice(), self.difficulty) {
                break ;
            }
            nonce += 1;
        }
        (nonce, hex_encode(hash.as_slice()))
    }
}

} // verus!
