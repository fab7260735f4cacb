use architect_chain::chain::Transaction;
use architect_chain::storage::UTXOSet;
use architect_chain::testnet::test_utils::{
    create_fork_scenario, create_test_blockchain, create_test_network, create_test_transaction,
    create_test_wallets, mine_test_block, validate_blockchain_integrity, TestConfig,
};

#[test]
fn test_create_test_blockchain() {
    let result = create_test_blockchain();
    assert!(result.is_ok());
    let blockchain = result.unwrap();
    assert_eq!(blockchain.get_best_height().unwrap(), 0);
}

#[test]
fn test_create_test_network() {
    let result = create_test_network(3);
    assert!(result.is_ok());
    let nodes = result.unwrap();
    assert_eq!(nodes.len(), 3);
    for blockchain in nodes {
        assert_eq!(blockchain.get_best_height().unwrap(), 0);
    }
}

#[test]
fn test_create_test_wallets() {
    let result = create_test_wallets(5);
    assert!(result.is_ok());
    let (_wallets, addresses) = result.unwrap();
    assert_eq!(addresses.len(), 5);
    for i in 0..addresses.len() {
        for j in i + 1..addresses.len() {
            assert_ne!(addresses[i], addresses[j]);
        }
    }
}

#[test]
fn test_validate_blockchain_integrity() {
    let blockchain = create_test_blockchain().unwrap();
    let is_valid = validate_blockchain_integrity(&blockchain).unwrap();
    assert!(is_valid);
}

#[test]
fn trial_helpers_work_together() {
    let config = TestConfig::default();
    assert_eq!(config.initial_difficulty, 1);
    assert_eq!(config.genesis_reward, 5_000_000_000);
    let (wallets, addresses) = create_test_wallets(2).unwrap();
    let store = architect_chain::chain::blockchain::ChainStore {
        tip: None,
        blocks: vec![],
        chainstate: vec![],
    };
    let mut blockchain = architect_chain::chain::Blockchain::create_blockchain_with_path(
        &addresses[0],
        "trial",
        store,
    )
    .unwrap();
    let mut utxo_set = UTXOSet::new(blockchain.clone());
    utxo_set.reindex();
    let tx = create_test_transaction(&addresses[0], &addresses[1], 50, &utxo_set, &wallets).unwrap();
    assert_eq!(tx.get_fee(), 1);
    let block = mine_test_block(&mut blockchain, &[tx], &addresses[0]).unwrap();
    assert_eq!(block.get_height(), 1);
    // the walk from the tip meets a block whose parent is not "None"
    assert!(!validate_blockchain_integrity(&blockchain).unwrap());
    let fork = create_fork_scenario(&blockchain, 0, 2, &addresses[1]).unwrap();
    assert_eq!(fork.len(), 2);
    assert_eq!(fork[0].get_pre_block_hash(), blockchain.get_tip_hash());
    assert_eq!(fork[0].get_height(), 1);
    assert_eq!(fork[1].get_pre_block_hash(), fork[0].get_hash());
    assert!(create_fork_scenario(&blockchain, 1, 2, &addresses[1]).unwrap().is_empty());
    let coinbase = Transaction::new_coinbase_tx(&addresses[0]).unwrap();
    assert!(mine_test_block(&mut blockchain, &[coinbase], "nobody").is_err());
}
