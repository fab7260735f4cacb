//! The Merkle commitment to the transactions of a block: pairs are hashed with
//! SHA-256 applied twice, a level of odd length repeats its last node, and a
//! single leaf is paired with itself.

use crate::chain::transaction::{transaction_models, Transaction, TransactionModel};
use crate::error::{owned, BlockchainError};
use crate::chain::transaction::bytes_eq;
use crate::utils::crypto::{sha256_digest, spec_sha256};
use vstd::prelude::*;

verus! {

/// The hash of a pair of nodes: SHA-256 twice over left then right.
pub open spec fn spec_hash_pair(left: Seq<u8>, right: Seq<u8>) -> Seq<u8> {
    spec_sha256(spec_sha256(left + right))
}

/// The node that stands beside node `i` of a level: the next one for an even
/// `i` (the node itself where there is none), the one before for an odd `i`.
pub open spec fn spec_sibling(level: Seq<Seq<u8>>, i: int) -> Seq<u8> {
    if i % 2 == 0 {
        if i + 1 < level.len() {
            level[i + 1]
        } else {
            level[i]
        }
    } else {
        level[i - 1]
    }
}

/// The level above `level`: node `k` is the hash of nodes `2k` and `2k + 1`,
/// the last node standing twice where the length is odd.
pub open spec fn spec_next_level(level: Seq<Seq<u8>>) -> Seq<Seq<u8>> {
    Seq::new(
        ((level.len() + 1) / 2) as nat,
        |k: int| spec_hash_pair(level[2 * k], spec_sibling(level, 2 * k)),
    )
}

/// The Merkle root of a list of leaves (the empty sequence for no leaves).
pub open spec fn spec_merkle_root(leaves: Seq<Seq<u8>>) -> Seq<u8>
    decreases leaves.len(),
{
    if leaves.len() == 0 {
        Seq::empty()
    } else {
        let next = spec_next_level(leaves);
        if next.len() == 1 {
            next[0]
        } else {
            spec_merkle_root(next)
        }
    }
}

/// One step of a proof: the hash of the sibling, and whether it stands on the
/// right.
pub struct StepModel {
    pub hash: Seq<u8>,
    pub is_right: bool,
}

/// The proof for leaf `i`: from the leaves upward, the sibling at each level.
pub open spec fn spec_merkle_path(level: Seq<Seq<u8>>, i: int) -> Seq<StepModel>
    decreases level.len(),
{
    if level.len() == 0 {
        Seq::empty()
    } else {
        let step = StepModel { hash: spec_sibling(level, i), is_right: i % 2 == 0 };
        let next = spec_next_level(level);
        if next.len() == 1 {
            seq![step]
        } else {
            seq![step] + spec_merkle_path(next, i / 2)
        }
    }
}

/// The hash that a step makes of the hash below it.
pub open spec fn spec_apply_step(current: Seq<u8>, step: StepModel) -> Seq<u8> {
    if step.is_right {
        spec_hash_pair(current, step.hash)
    } else {
        spec_hash_pair(step.hash, current)
    }
}

/// The hash at the top of a path that starts from `current`.
pub open spec fn spec_fold_path(current: Seq<u8>, path: Seq<StepModel>) -> Seq<u8>
    decreases path.len(),
{
    if path.len() == 0 {
        current
    } else {
        spec_fold_path(spec_apply_step(current, path[0]), path.drop_first())
    }
}

/// The path of a leaf leads from the leaf to the Merkle root.
pub proof fn lemma_path_leads_to_root(level: Seq<Seq<u8>>, i: int)
    requires
        0 <= i < level.len(),
    ensures
        spec_fold_path(level[i], spec_merkle_path(level, i)) == spec_merkle_root(level),
    decreases level.len(),
{
    let step = StepModel { hash: spec_sibling(level, i), is_right: i % 2 == 0 };
    let next = spec_next_level(level);
    let up = spec_apply_step(level[i], step);
    assert(up == next[i / 2]) by {
        if i % 2 == 0 {
            assert(2 * (i / 2) == i);
        } else {
            assert(2 * (i / 2) == i - 1);
            assert(spec_sibling(level, i - 1) == level[i]);
        }
    }
    let path = spec_merkle_path(level, i);
    if next.len() == 1 {
        assert(path.drop_first() =~= Seq::<StepModel>::empty());
        assert(spec_fold_path(up, path.drop_first()) == up);
    } else {
        assert(path.drop_first() =~= spec_merkle_path(next, i / 2));
        lemma_path_leads_to_root(next, i / 2);
    }
}

/// The byte strings of a list of vectors.
pub open spec fn byte_views(hashes: Seq<Vec<u8>>) -> Seq<Seq<u8>> {
    hashes.map_values(|h: Vec<u8>| h@)
}

/// The identifiers of a list of transactions, in order.
pub open spec fn spec_transaction_ids(transactions: Seq<TransactionModel>) -> Seq<Seq<u8>> {
    transactions.map_values(|t: TransactionModel| t.id)
}

/// One step of a Merkle proof.
#[derive(Debug)]
pub struct ProofElement {
    /// Hash of the sibling.
    pub hash: Vec<u8>,
    /// Whether the sibling stands on the right.
    pub is_right: bool,
}

impl View for ProofElement {
    type V = StepModel;

    open spec fn view(&self) -> StepModel {
        StepModel { hash: self.hash@, is_right: self.is_right }
    }
}

/// The steps of a list of proof elements.
pub open spec fn step_models(path: Seq<ProofElement>) -> Seq<StepModel> {
    path.map_values(|e: ProofElement| e@)
}

/// A proof that a transaction belongs to a block.
#[derive(Debug)]
pub struct MerkleProof {
    /// Identifier of the transaction.
    pub transaction_hash: Vec<u8>,
    /// Merkle root that the proof leads to.
    pub merkle_root: Vec<u8>,
    /// Sibling hashes from the leaf upward.
    pub proof_path: Vec<ProofElement>,
    /// Position of the transaction in the block.
    pub transaction_index: usize,
}

impl MerkleProof {
    /// Whether the path leads from the transaction to the root.
    pub open spec fn spec_valid(&self) -> bool {
        spec_fold_path(self.transaction_hash@, step_models(self.proof_path@)) == self.merkle_root@
    }
}

/// A Merkle tree over a list of leaves.
#[derive(Debug)]
pub struct MerkleTree {
    leaves: Vec<Vec<u8>>,
    root: Vec<u8>,
}

/// SHA-256 twice over `left` then `right`.
pub fn hash_pair(left: &[u8], right: &[u8]) -> (out: Vec<u8>)
    ensures
        out@ == spec_hash_pair(left@, right@),
        out@.len() == 32,
{
    let mut combined: Vec<u8> = Vec::new();
    combined.extend_from_slice(left);
    combined.extend_from_slice(right);
    assert(combined@ =~= left@ + right@);
    let first_hash = sha256_digest(combined.as_slice());
    sha256_digest(first_hash.as_slice())
}

/// The level above `level`.
fn next_level(level: &[Vec<u8>]) -> (out: Vec<Vec<u8>>)
    ensures
        byte_views(out@) == spec_next_level(byte_views(level@)),
        out@.len() == (level@.len() + 1) / 2,
        forall|k: int| 0 <= k < out@.len() ==> (#[trigger] out@[k])@.len() == 32,
{
    let ghost nodes = byte_views(level@);
    let len = level.len();
    let count = len / 2 + len % 2;
    let mut out: Vec<Vec<u8>> = Vec::new();
    let mut k: usize = 0;
    while k < count
        invariant
            k <= count,
            len == level@.len(),
            count == (len + 1) / 2,
            nodes == byte_views(level@),
            out@.len() == k,
            forall|j: int| 0 <= j < out@.len() ==> (#[trigger] out@[j])@ == spec_next_level(nodes)[j],
            forall|j: int| 0 <= j < out@.len() ==> (#[trigger] out@[j])@.len() == 32,
        decreases count - k,
    {
        let i = 2 * k;
        let left = &level[i];
        let right = if i + 1 < len {
            &level[i + 1]
        } else {
            &level[i]
        };
        proof {
            assert(nodes[i as int] == level@[i as int]@);
            if i + 1 < level@.len() {
                assert(nodes[i + 1] == level@[i + 1]@);
            }
        }
        out.push(hash_pair(left.as_slice(), right.as_slice()));
        k += 1;
    }
    assert(byte_views(out@) =~= spec_next_level(nodes));
    out
}

/// A copy of a list of byte strings.
pub fn copy_hashes(hashes: &[Vec<u8>]) -> (out: Vec<Vec<u8>>)
    ensures
        byte_views(out@) == byte_views(hashes@),
        out@.len() == hashes@.len(),
{
    let mut out: Vec<Vec<u8>> = Vec::new();
    let mut i: usize = 0;
    while i < hashes.len()
        invariant
            i <= hashes@.len(),
            out@.len() == i,
            forall|k: int| 0 <= k < i ==> (#[trigger] out@[k])@ == hashes@[k]@,
        decreases hashes@.len() - i,
    {
        out.push(hashes[i].clone());
        i += 1;
    }
    assert(byte_views(out@) =~= byte_views(hashes@));
    out
}

/// The identifiers of a list of transactions, in order.
pub fn transaction_ids(transactions: &[Transaction]) -> (out: Vec<Vec<u8>>)
    ensures
        byte_views(out@) == spec_transaction_ids(transaction_models(transactions@)),
        out@.len() == transactions@.len(),
{
    let mut out: Vec<Vec<u8>> = Vec::new();
    let mut i: usize = 0;
    while i < transactions.len()
        invariant
            i <= transactions@.len(),
            out@.len() == i,
            forall|k: int| 0 <= k < i ==> (#[trigger] out@[k])@ == transactions@[k]@.id,
        decreases transactions@.len() - i,
    {
        out.push(transactions[i].get_id_bytes());
        i += 1;
    }
    assert(byte_views(out@) =~= spec_transaction_ids(transaction_models(transactions@)));
    out
}

impl MerkleTree {
    /// The leaves of the tree.
    pub closed spec fn spec_leaves(&self) -> Seq<Seq<u8>> {
        byte_views(self.leaves@)
    }

    /// The root of the tree.
    pub closed spec fn spec_root(&self) -> Seq<u8> {
        self.root@
    }

    /// A tree has at least one leaf, and its root is the Merkle root of its
    /// leaves.
    #[verifier::type_invariant]
    closed spec fn wf(&self) -> bool {
        self.leaves@.len() >= 1 && self.root@ == spec_merkle_root(byte_views(self.leaves@))
    }

    /// The tree over the identifiers of `transactions`; `InvalidBlock` where
    /// there is none.
    pub fn new(transactions: &[Transaction]) -> (out: Result<MerkleTree, BlockchainError>)
        ensures
            transactions@.len() == 0 ==> out is Err && out->Err_0 is InvalidBlock,
            transactions@.len() > 0 ==> out is Ok && out->Ok_0.spec_leaves()
                == spec_transaction_ids(transaction_models(transactions@)),
    {
        if transactions.len() == 0 {
            return Err(
                BlockchainError::InvalidBlock(
                    owned("Cannot create Merkle tree from empty transaction list"),
                ),
            );
        }
        let leaf_hashes = transaction_ids(transactions);
        Self::from_hashes(leaf_hashes.as_slice())
    }

    /// The tree over `hashes`; `InvalidBlock` where there is none.
    pub fn from_hashes(hashes: &[Vec<u8>]) -> (out: Result<MerkleTree, BlockchainError>)
        ensures
            hashes@.len() == 0 ==> out is Err && out->Err_0 is InvalidBlock,
            hashes@.len() > 0 ==> out is Ok && out->Ok_0.spec_leaves() == byte_views(hashes@),
    {
        if hashes.len() == 0 {
            return Err(
                BlockchainError::InvalidBlock(
                    owned("Cannot create Merkle tree from empty hash list"),
                ),
            );
        }
        let root = match Self::calculate_merkle_root(hashes) {
            Ok(root) => root,
            Err(e) => { return Err(e); },
        };
        Ok(MerkleTree { leaves: copy_hashes(hashes), root })
    }

    /// The root of the tree.
    pub fn get_root_hash(&self) -> (out: Result<Vec<u8>, BlockchainError>)
        ensures
            out is Ok,
            out->Ok_0@ == self.spec_root(),
            out->Ok_0@ == spec_merkle_root(self.spec_leaves()),
    {
        proof {
            use_type_invariant(self);
        }
        Ok(self.root.clone())
    }

    /// The proof for the leaf at `transaction_index`: `InvalidBlock` where the
    /// index is not one of a leaf. The proof names the leaf and the root,
    /// holds the path of that leaf, and is valid.
    pub fn generate_proof(&self, transaction_index: usize) -> (out: Result<
        MerkleProof,
        BlockchainError,
    >)
        ensures
            transaction_index >= self.spec_leaves().len() ==> out is Err
                && out->Err_0 is InvalidBlock,
            transaction_index < self.spec_leaves().len() ==> out is Ok && {
                let proof = out->Ok_0;
                &&& proof.transaction_hash@ == self.spec_leaves()[transaction_index as int]
                &&& proof.merkle_root@ == self.spec_root()
                &&& proof.transaction_index == transaction_index
                &&& step_models(proof.proof_path@) == spec_merkle_path(
                    self.spec_leaves(),
                    transaction_index as int,
                )
                &&& proof.spec_valid()
            },
    {
        proof {
            use_type_invariant(self);
        }
        if transaction_index >= self.leaves.len() {
            return Err(BlockchainError::InvalidBlock(owned("Transaction index out of bounds")));
        }
        let ghost leaves = byte_views(self.leaves@);
        let transaction_hash = self.leaves[transaction_index].clone();
        let mut path: Vec<ProofElement> = Vec::new();
        let mut level = copy_hashes(self.leaves.as_slice());
        let mut index = transaction_index;
        proof {
            assert(step_models(path@) =~= Seq::<StepModel>::empty());
            assert(Seq::<StepModel>::empty() + spec_merkle_path(leaves, index as int)
                =~= spec_merkle_path(leaves, index as int));
        }
        loop
            invariant_except_break
                level@.len() >= 1,
                index < level@.len(),
                step_models(path@) + spec_merkle_path(byte_views(level@), index as int)
                    == spec_merkle_path(leaves, transaction_index as int),
            ensures
                step_models(path@) == spec_merkle_path(leaves, transaction_index as int),
            decreases level@.len(),
        {
            let ghost nodes = byte_views(level@);
            let ghost before = step_models(path@);
            let is_right = index % 2 == 0;
            let sibling = if is_right {
                if index + 1 < level.len() {
                    level[index + 1].clone()
                } else {
                    level[index].clone()
                }
            } else {
                level[index - 1].clone()
            };
            proof {
                assert(nodes[index as int] == level@[index as int]@);
                if index + 1 < level@.len() {
                    assert(nodes[index + 1] == level@[index + 1]@);
                }
                if index >= 1 {
                    assert(nodes[index - 1] == level@[index - 1]@);
                }
                assert(sibling@ == spec_sibling(nodes, index as int));
            }
            path.push(ProofElement { hash: sibling, is_right });
            let ghost step = StepModel { hash: spec_sibling(nodes, index as int), is_right };
            assert(step_models(path@) =~= before.push(step));
            let next = next_level(level.as_slice());
            if next.len() == 1 {
                proof {
                    assert(spec_merkle_path(nodes, index as int) =~= seq![step]);
                    assert(before.push(step) =~= before + seq![step]);
                }
                break ;
            }
            proof {
                assert(spec_merkle_path(nodes, index as int) =~= seq![step] + spec_merkle_path(
                    byte_views(next@),
                    index as int / 2,
                ));
                assert(before.push(step) + spec_merkle_path(byte_views(next@), index as int / 2)
                    =~= before + (seq![step] + spec_merkle_path(
                    byte_views(next@),
                    index as int / 2,
                )));
            }
            level = next;
            index = index / 2;
        }
        proof {
            assert(leaves[transaction_index as int] == self.leaves@[transaction_index as int]@);
            lemma_path_leads_to_root(leaves, transaction_index as int);
        }
        Ok(
            MerkleProof {
                transaction_hash,
                merkle_root: self.root.clone(),
                proof_path: path,
                transaction_index,
            },
        )
    }

    /// Whether the path of `proof` leads from its transaction to its root.
    pub fn verify_proof(proof: &MerkleProof) -> (out: Result<bool, BlockchainError>)
        ensures
            out is Ok,
            out->Ok_0 == proof.spec_valid(),
    {
        let mut current_hash = proof.transaction_hash.clone();
        let ghost path = step_models(proof.proof_path@);
        let mut i: usize = 0;
        assert(path.skip(0) =~= path);
        while i < proof.proof_path.len()
            invariant
                i <= proof.proof_path@.len(),
                path == step_models(proof.proof_path@),
                spec_fold_path(proof.transaction_hash@, path) == spec_fold_path(
                    current_hash@,
                    path.skip(i as int),
                ),
            decreases proof.proof_path@.len() - i,
        {
            let element = &proof.proof_path[i];
            proof {
                assert(path.skip(i as int)[0] == element@);
                assert(path.skip(i as int).drop_first() =~= path.skip(i + 1));
            }
            current_hash = if element.is_right {
                hash_pair(current_hash.as_slice(), element.hash.as_slice())
            } else {
                hash_pair(element.hash.as_slice(), current_hash.as_slice())
            };
            i += 1;
        }
        Ok(bytes_eq(current_hash.as_slice(), proof.merkle_root.as_slice()))
    }

    /// The number of leaves.
    pub fn leaf_count(&self) -> (n: usize)
        ensures
            n == self.spec_leaves().len(),
            n >= 1,
    {
        proof {
            use_type_invariant(self);
        }
        self.leaves.len()
    }

    /// Whether the tree has no root; a tree always has one.
    pub fn is_empty(&self) -> (empty: bool)
        ensures
            !empty,
    {
        false
    }

    /// The Merkle root of `transaction_hashes`; `InvalidBlock` where there is
    /// none.
    pub fn calculate_merkle_root(transaction_hashes: &[Vec<u8>]) -> (out: Result<
        Vec<u8>,
        BlockchainError,
    >)
        ensures
            transaction_hashes@.len() == 0 ==> out is Err && out->Err_0 is InvalidBlock,
            transaction_hashes@.len() > 0 ==> out is Ok && out->Ok_0@ == spec_merkle_root(
                byte_views(transaction_hashes@),
            ) && out->Ok_0@.len() == 32,
    {
        if transaction_hashes.len() == 0 {
            return Err(
                BlockchainError::InvalidBlock(
                    owned("Cannot calculate Merkle root from empty transaction list"),
                ),
            );
        }
        let ghost leaves = byte_views(transaction_hashes@);
        let mut current_level = next_level(transaction_hashes);
        while current_level.len() > 1
            invariant
                current_level@.len() >= 1,
                leaves.len() >= 1,
                spec_merkle_root(leaves) == (if current_level@.len() == 1 {
                    current_level@[0]@
                } else {
                    spec_merkle_root(byte_views(current_level@))
                }),
                forall|k: int| 0 <= k < current_level@.len() ==> (#[trigger] current_level@[k])@.len() == 32,
            decreases current_level@.len(),
        {
            let next = next_level(current_level.as_slice());
            proof {
                assert(byte_views(next@)[0] == next@[0]@);
            }
            current_level = next;
        }
        Ok(current_level[0].clone())
    }

    /// Whether the Merkle root of `transactions` is `expected_root`;
    /// `InvalidBlock` where there is no transaction.
    pub fn verify_transactions(transactions: &[Transaction], expected_root: &[u8]) -> (out: Result<
        bool,
        BlockchainError,
    >)
        ensures
            transactions@.len() == 0 ==> out is Err && out->Err_0 is InvalidBlock,
            transactions@.len() > 0 ==> out is Ok && out->Ok_0 == (spec_merkle_root(
                spec_transaction_ids(transaction_models(transactions@)),
            ) == expected_root@),
    {
        let transaction_hashes = transaction_ids(transactions);
        match Self::calculate_merkle_root(transaction_hashes.as_slice()) {
            Ok(calculated_root) => Ok(bytes_eq(calculated_root.as_slice(), expected_root)),
            Err(e) => Err(e),
        }
    }
}

} // verus!
