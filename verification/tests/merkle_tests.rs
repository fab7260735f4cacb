use architect_chain::chain::merkle::{hash_pair, MerkleProof, MerkleTree, ProofElement};
use architect_chain::error::BlockchainError;
use architect_chain::utils::crypto::sha256_digest;

#[test]
fn test_merkle_root_calculation() {
    let hashes = vec![vec![1, 2, 3, 4], vec![5, 6, 7, 8], vec![9, 10, 11, 12]];
    let root = MerkleTree::calculate_merkle_root(&hashes).unwrap();
    assert!(!root.is_empty());
}

#[test]
fn test_single_transaction_merkle_root() {
    let hashes = vec![vec![1, 2, 3, 4]];
    let root = MerkleTree::calculate_merkle_root(&hashes).unwrap();
    let expected_root = hash_pair(&hashes[0], &hashes[0]);
    assert_eq!(root, expected_root);
    assert_ne!(root, hashes[0]);
    assert_eq!(root.len(), 32);
}

#[test]
fn test_empty_transaction_list() {
    let hashes: Vec<Vec<u8>> = vec![];
    let result = MerkleTree::calculate_merkle_root(&hashes);
    assert!(result.is_err());
}

#[test]
fn test_merkle_tree_creation() {
    let hashes = vec![vec![1, 2, 3, 4], vec![5, 6, 7, 8]];
    let tree = MerkleTree::from_hashes(&hashes).unwrap();
    assert_eq!(tree.leaf_count(), 2);
    assert!(!tree.is_empty());
}

#[test]
fn test_merkle_consistency_single_transaction() {
    let test_hash = vec![1, 2, 3, 4];
    let root_from_calculate = MerkleTree::calculate_merkle_root(&[test_hash.clone()]).unwrap();
    let tree = MerkleTree::from_hashes(&[test_hash.clone()]).unwrap();
    let root_from_tree = tree.get_root_hash().unwrap();
    assert_eq!(
        root_from_calculate, root_from_tree,
        "calculate_merkle_root and tree.get_root_hash() produce different results for single transaction!"
    );
    let expected_root = hash_pair(&test_hash, &test_hash);
    assert_eq!(
        root_from_calculate, expected_root,
        "Single transaction Merkle root should be double SHA-256 of the transaction hash"
    );
}

#[test]
fn hash_pair_is_sha256_twice() {
    let left = vec![1u8, 2, 3];
    let right = vec![4u8, 5];
    let expected = sha256_digest(&sha256_digest(&[1, 2, 3, 4, 5]));
    assert_eq!(hash_pair(&left, &right), expected);
}

#[test]
fn odd_level_repeats_its_last_node() {
    let a = vec![1u8; 32];
    let b = vec![2u8; 32];
    let c = vec![3u8; 32];
    let ab = hash_pair(&a, &b);
    let cc = hash_pair(&c, &c);
    let expected = hash_pair(&ab, &cc);
    let root = MerkleTree::calculate_merkle_root(&[a, b, c]).unwrap();
    assert_eq!(root, expected);
}

#[test]
fn every_proof_leads_to_the_root() {
    for count in 1..=9usize {
        let leaves: Vec<Vec<u8>> = (0..count).map(|i| vec![i as u8; 32]).collect();
        let tree = MerkleTree::from_hashes(&leaves).unwrap();
        let root = tree.get_root_hash().unwrap();
        assert_eq!(root, MerkleTree::calculate_merkle_root(&leaves).unwrap());
        for index in 0..count {
            let proof = tree.generate_proof(index).unwrap();
            assert_eq!(proof.transaction_hash, leaves[index]);
            assert_eq!(proof.merkle_root, root);
            assert_eq!(proof.transaction_index, index);
            assert!(MerkleTree::verify_proof(&proof).unwrap());
        }
        assert!(matches!(
            tree.generate_proof(count),
            Err(BlockchainError::InvalidBlock(_))
        ));
    }
}

#[test]
fn a_changed_proof_does_not_verify() {
    let leaves: Vec<Vec<u8>> = (0..4).map(|i| vec![i as u8; 32]).collect();
    let tree = MerkleTree::from_hashes(&leaves).unwrap();
    let proof = tree.generate_proof(2).unwrap();
    let mut path: Vec<ProofElement> = Vec::new();
    for element in &proof.proof_path {
        path.push(ProofElement {
            hash: element.hash.clone(),
            is_right: !element.is_right,
        });
    }
    let changed = MerkleProof {
        transaction_hash: proof.transaction_hash.clone(),
        merkle_root: proof.merkle_root.clone(),
        proof_path: path,
        transaction_index: 2,
    };
    assert!(!MerkleTree::verify_proof(&changed).unwrap());
}

#[test]
fn merkle_tree_rejects_no_leaves() {
    assert!(matches!(
        MerkleTree::from_hashes(&[]),
        Err(BlockchainError::InvalidBlock(_))
    ));
    assert!(matches!(
        MerkleTree::new(&[]),
        Err(BlockchainError::InvalidBlock(_))
    ));
    assert!(matches!(
        MerkleTree::verify_transactions(&[], &[0u8; 32]),
        Err(BlockchainError::InvalidBlock(_))
    ));
}
