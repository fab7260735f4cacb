use architect_chain::chain::block::Block;
use architect_chain::chain::blockchain::{Blockchain, ChainStore};
use architect_chain::chain::fees::{FeeCalculator, FeePriority};
use architect_chain::chain::monetary::INITIAL_BLOCK_REWARD;
use architect_chain::chain::proof_of_work::ProofOfWork;
use architect_chain::chain::transaction::{TXInput, TXOutput, Transaction};
use architect_chain::error::BlockchainError;
use architect_chain::storage::UTXOSet;
use architect_chain::utils::crypto::{base58_decode, current_timestamp, sha256_digest};
use architect_chain::wallet::{Wallets, ADDRESS_CHECK_SUM_LEN};

const TEST_ADDRESS: &str = "1A1zP1eP5QGefi2DMPTfTL5SLmv7DivfNa";

fn empty_store() -> ChainStore {
    ChainStore {
        tip: None,
        blocks: Vec::new(),
        chainstate: Vec::new(),
    }
}

fn new_chain(address: &str) -> Blockchain {
    Blockchain::create_blockchain_with_path(address, "test_blockchain", empty_store()).unwrap()
}

fn pause() {
    let start = current_timestamp().unwrap();
    while current_timestamp().unwrap() < start + 2 {}
}

fn get_balance(utxo_set: &UTXOSet, address: &str) -> u64 {
    let payload = base58_decode(address).unwrap();
    let pub_key_hash = &payload[1..payload.len() - ADDRESS_CHECK_SUM_LEN];
    let utxos = utxo_set.find_utxo(pub_key_hash);
    utxos.iter().map(|utxo| utxo.get_value()).sum()
}

fn reindexed(blockchain: &Blockchain) -> UTXOSet {
    let mut utxo_set = UTXOSet::new(blockchain.clone());
    utxo_set.reindex();
    utxo_set
}

fn create_test_block(difficulty: u32) -> Block {
    let coinbase_tx = Transaction::new_coinbase_tx(TEST_ADDRESS).unwrap();
    Block::new_block("None".to_string(), &[coinbase_tx], 0, difficulty).unwrap()
}

#[test]
fn test_proof_of_work_creation() {
    let block = create_test_block(4);
    let pow = ProofOfWork::new_proof_of_work(block.clone());
    // the proof of work of a mined block finds the block's own nonce again
    let (nonce, hash) = pow.run();
    assert_eq!(nonce, block.get_nonce());
    assert_eq!(hash, block.get_hash());
}

#[test]
fn test_proof_of_work_validation_valid_block() {
    let block = create_test_block(1);
    assert!(ProofOfWork::validate(&block));
}

#[test]
fn test_proof_of_work_validation_invalid_block() {
    let coinbase_tx = Transaction::new_coinbase_tx(TEST_ADDRESS).unwrap();
    let invalid_block =
        Block::new_block("wrong_previous_hash".to_string(), &[coinbase_tx], 0, 1).unwrap();
    assert!(ProofOfWork::validate(&invalid_block));
}

#[test]
fn test_proof_of_work_difficulty_scaling() {
    let easy_block = create_test_block(1);
    let hard_block = create_test_block(2);
    assert!(ProofOfWork::validate(&easy_block));
    assert!(ProofOfWork::validate(&hard_block));
    // a higher difficulty has the smaller target: two leading zero bits
    let digest = data_encoding::HEXLOWER
        .decode(hard_block.get_hash().as_bytes())
        .unwrap();
    assert!(digest[0] < 0x40);
    let digest = data_encoding::HEXLOWER
        .decode(easy_block.get_hash().as_bytes())
        .unwrap();
    assert!(digest[0] < 0x80);
}

#[test]
fn test_prepare_data_consistency() {
    let block = create_test_block(2);
    let pow = ProofOfWork::new_proof_of_work(block);
    let data1 = pow.prepare_data(12345);
    let data2 = pow.prepare_data(12345);
    assert_eq!(data1, data2);
    let data3 = pow.prepare_data(54321);
    assert_ne!(data1, data3);
}

#[test]
fn test_prepare_data_includes_all_fields() {
    let block = create_test_block(2);
    let pow = ProofOfWork::new_proof_of_work(block.clone());
    let data = pow.prepare_data(12345);
    let expected_min_length =
        block.get_pre_block_hash().len() + block.get_merkle_root().len() + 8 + 8 + 4 + 8;
    assert!(data.len() >= expected_min_length);
}

#[test]
fn the_preimage_is_laid_out_field_by_field() {
    let tx = Transaction::new_coinbase_tx(TEST_ADDRESS).unwrap();
    let block = Block::new_test_block(0x0102, "ab".to_string(), &[tx], 7, 9).unwrap();
    let pow = ProofOfWork::new_proof_of_work(block.clone());
    let data = pow.prepare_data(-2);
    let mut expected = b"ab".to_vec();
    expected.extend_from_slice(block.get_merkle_root());
    expected.extend_from_slice(&0x0102i64.to_be_bytes());
    expected.extend_from_slice(&7u64.to_be_bytes());
    expected.extend_from_slice(&9u32.to_be_bytes());
    expected.extend_from_slice(&(-2i64).to_be_bytes());
    assert_eq!(data, expected);
}

#[test]
fn the_hash_of_a_mined_block_is_the_digest_of_its_header() {
    let block = create_test_block(6);
    let pow = ProofOfWork::new_proof_of_work(block.clone());
    let digest = sha256_digest(&pow.prepare_data(block.get_nonce()));
    assert_eq!(block.get_hash(), data_encoding::HEXLOWER.encode(&digest));
    // six leading zero bits
    assert!(digest[0] < 4);
    // no smaller nonce passes
    for nonce in 0..block.get_nonce() {
        let earlier = sha256_digest(&pow.prepare_data(nonce));
        assert!(earlier[0] >= 4);
    }
}

#[test]
fn a_changed_nonce_breaks_the_proof_of_work() {
    let block = create_test_block(12);
    assert!(ProofOfWork::validate(&block));
    assert!(block.validate_block(None).unwrap());
    let mut rejected = 0;
    for bit in 0..16 {
        let tampered = Block::from_parts(
            block.get_timestamp(),
            block.get_pre_block_hash(),
            block.get_hash().to_string(),
            block.get_transactions().to_vec(),
            block.get_nonce() ^ (1 << bit),
            block.get_height(),
            block.get_difficulty(),
            block.get_merkle_root().to_vec(),
        );
        if !ProofOfWork::validate(&tampered) {
            assert!(!tampered.validate_block(None).unwrap());
            let mut chain = new_chain(TEST_ADDRESS);
            assert!(!chain.sync_with_peer(&[tampered]).unwrap());
            assert_eq!(chain.get_best_height().unwrap(), 0);
            rejected += 1;
        }
    }
    assert!(rejected >= 15);
}

#[test]
fn a_difficulty_above_256_is_never_met() {
    let tx = Transaction::new_coinbase_tx(TEST_ADDRESS).unwrap();
    let block = Block::new_test_block(1, "None".to_string(), &[tx], 0, 257).unwrap();
    assert!(!ProofOfWork::validate(&block));
    let zero = Block::new_test_block(
        1,
        "None".to_string(),
        &[Transaction::new_coinbase_tx(TEST_ADDRESS).unwrap()],
        0,
        0,
    )
    .unwrap();
    assert!(ProofOfWork::validate(&zero));
}

#[test]
fn test_proof_of_work_validation() {
    let coinbase_tx = Transaction::new_coinbase_tx(TEST_ADDRESS).unwrap();
    let block = Block::new_block("prev_hash".to_string(), &[coinbase_tx], 1, 1).unwrap();
    assert!(ProofOfWork::validate(&block));
    assert!(block.verify_merkle_root().unwrap());
}

#[test]
fn test_blockchain_creation_and_mining() {
    let mut blockchain = new_chain(TEST_ADDRESS);
    assert_eq!(blockchain.get_best_height().unwrap(), 0);
    let coinbase_tx = Transaction::new_coinbase_tx(TEST_ADDRESS).unwrap();
    let block = blockchain
        .mine_block_with_fees(&[coinbase_tx], TEST_ADDRESS)
        .unwrap();
    assert_eq!(block.get_height(), 1);
    assert_eq!(blockchain.get_best_height().unwrap(), 1);
    assert!(ProofOfWork::validate(&block));
}

#[test]
fn test_transaction_creation_and_validation() {
    let mut wallets = Wallets::new();
    let sender_address = wallets.create_wallet().unwrap();
    let recipient_address = wallets.create_wallet().unwrap();
    let fees = FeeCalculator::new();

    let mut blockchain = new_chain(&sender_address);
    let coinbase_tx = Transaction::new_coinbase_tx(&sender_address).unwrap();
    blockchain
        .mine_block_with_fees(&[coinbase_tx], &sender_address)
        .unwrap();

    let utxo_set = reindexed(&blockchain);

    let tx = Transaction::new_utxo_transaction(
        &sender_address,
        &recipient_address,
        1000000,
        &utxo_set,
        &wallets,
        &fees,
        0,
    )
    .unwrap();

    assert!(tx.verify(&blockchain));
    assert!(!tx.is_coinbase());
    assert!(tx.get_fee() > 0);

    let block = blockchain
        .mine_block_with_fees(&[tx], &sender_address)
        .unwrap();
    assert_eq!(block.get_height(), 2);
    assert_eq!(block.get_transactions().len(), 2);
}

#[test]
fn test_blockchain_synchronization() {
    let mut blockchain = new_chain(TEST_ADDRESS);
    let coinbase_tx = Transaction::new_coinbase_tx(TEST_ADDRESS).unwrap();
    let block1 = blockchain
        .mine_block_with_fees(&[coinbase_tx], TEST_ADDRESS)
        .unwrap();
    assert_eq!(blockchain.get_best_height().unwrap(), 1);

    let mut additional_blocks = Vec::new();
    let mut prev_hash = block1.get_hash().to_string();
    for i in 2..=4 {
        let coinbase_tx = Transaction::new_coinbase_tx(TEST_ADDRESS).unwrap();
        let block = Block::new_block(prev_hash, &[coinbase_tx], i, 1).unwrap();
        prev_hash = block.get_hash().to_string();
        additional_blocks.push(block);
    }

    let sync_result = blockchain.sync_with_peer(&additional_blocks).unwrap();
    assert!(sync_result);
    assert!(blockchain.get_best_height().unwrap() >= 4);
}

#[test]
fn test_fork_resolution() {
    let mut blockchain = new_chain(TEST_ADDRESS);
    let coinbase_tx = Transaction::new_coinbase_tx(TEST_ADDRESS).unwrap();
    blockchain
        .mine_block_with_fees(&[coinbase_tx], TEST_ADDRESS)
        .unwrap();
    assert_eq!(blockchain.get_best_height().unwrap(), 1);

    let mut competing_blocks = Vec::new();
    let mut prev_hash = blockchain.get_tip_hash();
    for i in 2..=4 {
        let coinbase_tx = Transaction::new_coinbase_tx(TEST_ADDRESS).unwrap();
        let block = Block::new_block(prev_hash, &[coinbase_tx], i, 1).unwrap();
        prev_hash = block.get_hash().to_string();
        competing_blocks.push(block);
    }

    let sync_result = blockchain.sync_with_peer(&competing_blocks).unwrap();
    assert!(sync_result);
    assert!(blockchain.get_best_height().unwrap() >= 4);
}

#[test]
fn test_block_validation_during_sync() {
    let mut blockchain = new_chain(TEST_ADDRESS);
    let coinbase_tx = Transaction::new_coinbase_tx(TEST_ADDRESS).unwrap();
    let valid_block =
        Block::new_block(blockchain.get_tip_hash(), &[coinbase_tx.clone()], 1, 1).unwrap();
    let invalid_block =
        Block::new_block("wrong_previous_hash".to_string(), &[coinbase_tx], 1, 1).unwrap();

    let valid_sync = blockchain.sync_with_peer(&[valid_block]).unwrap();
    assert!(valid_sync);
    assert_eq!(blockchain.get_best_height().unwrap(), 1);

    blockchain.sync_with_peer(&[invalid_block]).unwrap();
    assert_eq!(blockchain.get_best_height().unwrap(), 1);
}

#[test]
fn test_difficulty_adjustment() {
    let mut blockchain = new_chain(TEST_ADDRESS);
    for i in 1..=12 {
        pause();
        let coinbase_tx = Transaction::new_coinbase_tx(TEST_ADDRESS).unwrap();
        let block = blockchain
            .mine_block_with_fees(&[coinbase_tx], TEST_ADDRESS)
            .unwrap();
        assert_eq!(block.get_height(), i);
        assert!(ProofOfWork::validate(&block));
        let difficulty = block.get_difficulty();
        assert!((1..=12).contains(&difficulty));
    }
    assert_eq!(blockchain.get_best_height().unwrap(), 12);
}

#[test]
fn test_fee_calculation() {
    let mut wallets = Wallets::new();
    let sender_address = wallets.create_wallet().unwrap();
    let recipient_address = wallets.create_wallet().unwrap();
    let fees = FeeCalculator::new();

    let mut blockchain = new_chain(&sender_address);
    let coinbase_tx = Transaction::new_coinbase_tx(&sender_address).unwrap();
    blockchain
        .mine_block_with_fees(&[coinbase_tx], &sender_address)
        .unwrap();

    let utxo_set = reindexed(&blockchain);

    let tx = Transaction::new_utxo_transaction_with_priority(
        &sender_address,
        &recipient_address,
        500000,
        FeePriority::High,
        &utxo_set,
        &wallets,
        &fees,
        0,
    )
    .unwrap();

    let fee = tx.get_fee();
    assert!(fee > 0);

    blockchain
        .mine_block_with_fees(&[tx], &sender_address)
        .unwrap();
    let utxo_set = reindexed(&blockchain);

    let recipient_balance = get_balance(&utxo_set, &recipient_address);
    assert_eq!(recipient_balance, 500000);
}

#[test]
fn test_blockchain_persistence() {
    let store = {
        let mut blockchain = new_chain(TEST_ADDRESS);
        for _ in 1..=3 {
            let coinbase_tx = Transaction::new_coinbase_tx(TEST_ADDRESS).unwrap();
            blockchain
                .mine_block_with_fees(&[coinbase_tx], TEST_ADDRESS)
                .unwrap();
        }
        assert_eq!(blockchain.get_best_height().unwrap(), 3);
        blockchain.into_store()
    };
    {
        let mut blockchain =
            Blockchain::new_blockchain_with_path("persistent_blockchain", store).unwrap();
        assert_eq!(blockchain.get_best_height().unwrap(), 3);
        let coinbase_tx = Transaction::new_coinbase_tx(TEST_ADDRESS).unwrap();
        blockchain
            .mine_block_with_fees(&[coinbase_tx], TEST_ADDRESS)
            .unwrap();
        assert_eq!(blockchain.get_best_height().unwrap(), 4);
    }
    assert!(matches!(
        Blockchain::new_blockchain_with_path("nowhere", empty_store()),
        Err(BlockchainError::Database(_))
    ));
}

#[test]
fn genesis_scenario() {
    let mut wallets = Wallets::new();
    let a1 = wallets.create_wallet().unwrap();
    let blockchain = new_chain(&a1);
    assert_eq!(blockchain.get_best_height().unwrap(), 0);
    let utxo_set = reindexed(&blockchain);
    assert_eq!(get_balance(&utxo_set, &a1), INITIAL_BLOCK_REWARD);
    let genesis = blockchain.get_block(&blockchain.get_tip_hash()).unwrap().unwrap();
    assert_eq!(genesis.get_pre_block_hash(), "None");
    assert_eq!(genesis.get_difficulty(), 4);
    assert!(genesis.validate_block(None).unwrap());
    assert!(genesis.validate_coinbase_reward(INITIAL_BLOCK_REWARD).unwrap());
    assert!(matches!(
        Blockchain::create_blockchain_with_path("nobody", "x", empty_store()),
        Err(BlockchainError::InvalidAddress(_))
    ));
    // a store with a tip is taken as it is
    let again = Blockchain::create_blockchain_with_path("nobody", "x", blockchain.clone().into_store())
        .unwrap();
    assert_eq!(again.get_tip_hash(), blockchain.get_tip_hash());
}

#[test]
fn single_spend_scenario() {
    let mut wallets = Wallets::new();
    let a1 = wallets.create_wallet().unwrap();
    let a2 = wallets.create_wallet().unwrap();
    let fees = FeeCalculator::new();
    let mut blockchain = new_chain(&a1);
    let utxo_set = reindexed(&blockchain);

    let tx = Transaction::new_utxo_transaction_with_priority(
        &a1,
        &a2,
        1_000_000,
        FeePriority::Normal,
        &utxo_set,
        &wallets,
        &fees,
        0,
    )
    .unwrap();
    let fee = fees.calculate_fee(FeeCalculator::estimate_transaction_size(1, 2), Some(FeePriority::Normal), 0);
    assert_eq!(tx.get_fee(), fee);
    // the identifier was fixed before the inputs were signed
    let unsigned = Transaction::from_parts(
        vec![],
        tx.get_vin()
            .iter()
            .map(|i| {
                TXInput::from_parts(
                    i.get_txid().to_vec(),
                    i.get_vout(),
                    vec![],
                    i.get_pub_key().to_vec(),
                )
            })
            .collect(),
        tx.get_vout().to_vec(),
        tx.get_fee(),
    );
    assert_eq!(tx.get_id(), &unsigned.hash()[..]);
    assert_eq!(tx.get_vout().len(), 2);
    assert_eq!(tx.get_vout()[0].get_value(), 1_000_000);
    assert_eq!(tx.get_vout()[1].get_value(), INITIAL_BLOCK_REWARD - 1_000_000 - fee);
    assert!(tx.verify(&blockchain));
    assert!(tx.verify_balance(&blockchain));
    assert!(tx.verify_balance_detailed(&blockchain).unwrap());
    assert_eq!(tx.get_input_value(&blockchain).unwrap(), INITIAL_BLOCK_REWARD);
    assert_eq!(tx.get_output_value().unwrap(), INITIAL_BLOCK_REWARD - fee);

    let block = blockchain.mine_block_with_fees(&[tx], &a1).unwrap();
    assert_eq!(blockchain.get_best_height().unwrap(), 1);
    assert_eq!(block.get_height(), 1);
    assert_eq!(block.get_transactions().len(), 2);
    assert!(block.get_transactions()[0].is_coinbase());
    assert_eq!(block.get_total_fees(), fee);
    assert!(block.validate_coinbase_reward(INITIAL_BLOCK_REWARD + fee).unwrap());
    assert!(block.validate_block(None).unwrap());

    let utxo_set = reindexed(&blockchain);
    assert_eq!(get_balance(&utxo_set, &a2), 1_000_000);
    assert_eq!(
        get_balance(&utxo_set, &a1),
        INITIAL_BLOCK_REWARD + (INITIAL_BLOCK_REWARD + fee) - 1_000_000 - fee
    );
}

#[test]
fn insufficient_funds_scenario() {
    let mut wallets = Wallets::new();
    let a1 = wallets.create_wallet().unwrap();
    let a3 = wallets.create_wallet().unwrap();
    let a4 = wallets.create_wallet().unwrap();
    let fees = FeeCalculator::new();
    let blockchain = new_chain(&a1);
    let utxo_set = reindexed(&blockchain);
    let fee = fees.calculate_fee(1, Some(FeePriority::Normal), 0);
    let result =
        Transaction::new_utxo_transaction(&a3, &a4, 1, &utxo_set, &wallets, &fees, 0);
    match result {
        Err(BlockchainError::InsufficientFunds {
            required,
            available,
        }) => {
            assert_eq!(required, 1 + fee);
            assert_eq!(available, 0);
        }
        other => panic!("unexpected {:?}", other.map(|tx| tx.get_fee())),
    }
    assert_eq!(get_balance(&utxo_set, &a1), INITIAL_BLOCK_REWARD);
}

#[test]
fn spend_requests_are_checked_in_order() {
    let mut wallets = Wallets::new();
    let a1 = wallets.create_wallet().unwrap();
    let a2 = wallets.create_wallet().unwrap();
    let stranger = Wallets::new().create_wallet().unwrap();
    let fees = FeeCalculator::new();
    let blockchain = new_chain(&a1);
    let utxo_set = reindexed(&blockchain);
    assert!(matches!(
        Transaction::new_utxo_transaction(&a1, &a2, 0, &utxo_set, &wallets, &fees, 0),
        Err(BlockchainError::Transaction(_))
    ));
    assert!(matches!(
        Transaction::new_utxo_transaction("bad", &a2, 5, &utxo_set, &wallets, &fees, 0),
        Err(BlockchainError::InvalidAddress(_))
    ));
    assert!(matches!(
        Transaction::new_utxo_transaction(&a1, "bad", 5, &utxo_set, &wallets, &fees, 0),
        Err(BlockchainError::InvalidAddress(_))
    ));
    assert!(matches!(
        Transaction::new_utxo_transaction(&stranger, &a2, 5, &utxo_set, &wallets, &fees, 0),
        Err(BlockchainError::Wallet(_))
    ));
    assert!(matches!(
        Transaction::new_utxo_transaction_with_explicit_fee(&a1, &a2, u64::MAX, 1, &utxo_set, &wallets),
        Err(BlockchainError::Transaction(_))
    ));
    assert!(matches!(
        Transaction::new_utxo_transaction_with_fee(&a1, &a2, 5, 0, &utxo_set, &wallets),
        Err(BlockchainError::Transaction(_))
    ));
    let with_rate =
        Transaction::new_utxo_transaction_with_fee(&a1, &a2, 5, 3, &utxo_set, &wallets).unwrap();
    assert_eq!(with_rate.get_fee(), 158 * 3);
    assert!(with_rate.verify(&blockchain));
    // the whole balance and not a unit more
    let all = Transaction::new_utxo_transaction_with_explicit_fee(
        &a1,
        &a2,
        INITIAL_BLOCK_REWARD - 10,
        10,
        &utxo_set,
        &wallets,
    )
    .unwrap();
    assert_eq!(all.get_vout().len(), 1);
    assert!(all.verify(&blockchain));
    assert!(matches!(
        Transaction::new_utxo_transaction_with_explicit_fee(
            &a1,
            &a2,
            INITIAL_BLOCK_REWARD - 9,
            10,
            &utxo_set,
            &wallets
        ),
        Err(BlockchainError::InsufficientFunds {
            required: 5_000_000_001,
            available: 5_000_000_000
        })
    ));
}

#[test]
fn intra_block_double_spend_scenario() {
    let mut wallets = Wallets::new();
    let a1 = wallets.create_wallet().unwrap();
    let a2 = wallets.create_wallet().unwrap();
    let fees = FeeCalculator::new();
    let mut blockchain = new_chain(&a1);
    let utxo_set = reindexed(&blockchain);
    let tx1 =
        Transaction::new_utxo_transaction(&a1, &a2, 1000, &utxo_set, &wallets, &fees, 0).unwrap();
    let tx2 =
        Transaction::new_utxo_transaction(&a1, &a2, 2000, &utxo_set, &wallets, &fees, 0).unwrap();
    assert_eq!(tx1.get_vin()[0].get_txid(), tx2.get_vin()[0].get_txid());
    assert_eq!(tx1.get_vin()[0].get_vout(), 0);
    let tip = blockchain.get_tip_hash();
    match blockchain.mine_block_with_fees(&[tx1.clone(), tx2], &a1) {
        Err(BlockchainError::Transaction(message)) => {
            assert!(message.starts_with("Double-spending detected"));
        }
        other => panic!("unexpected {:?}", other.map(|b| b.get_height())),
    }
    assert_eq!(blockchain.get_tip_hash(), tip);
    assert_eq!(blockchain.get_best_height().unwrap(), 0);
    assert!(blockchain.check_for_double_spending(&[tx1.clone()]).is_ok());
    match blockchain.check_for_double_spending(&[tx1.clone(), tx1.clone()]) {
        Err(BlockchainError::Transaction(message)) => {
            let spender = data_encoding::HEXLOWER.encode(tx1.get_id());
            let spent = data_encoding::HEXLOWER.encode(tx1.get_vin()[0].get_txid());
            assert_eq!(
                message,
                format!(
                    "Double-spending detected in transaction {spender}: output {spent}:0 already spent in this block"
                )
            );
        }
        other => panic!("unexpected {other:?}"),
    }
}

#[test]
fn an_output_cannot_be_spent_again_in_a_later_block() {
    let mut wallets = Wallets::new();
    let a1 = wallets.create_wallet().unwrap();
    let a2 = wallets.create_wallet().unwrap();
    let fees = FeeCalculator::new();
    let mut blockchain = new_chain(&a1);
    let utxo_set = reindexed(&blockchain);
    let tx1 =
        Transaction::new_utxo_transaction(&a1, &a2, 1000, &utxo_set, &wallets, &fees, 0).unwrap();
    let tx2 =
        Transaction::new_utxo_transaction(&a1, &a2, 2000, &utxo_set, &wallets, &fees, 0).unwrap();
    let spent_txid = tx1.get_vin()[0].get_txid().to_vec();
    assert!(!blockchain.is_output_spent(&spent_txid, 0));
    assert!(blockchain.validate_transaction_inputs(&tx2).unwrap());
    blockchain.mine_block(&[tx1]).unwrap();
    assert!(blockchain.is_output_spent(&spent_txid, 0));
    assert!(!blockchain.is_output_spent(&spent_txid, 1));
    assert!(!tx2.verify(&blockchain));
    assert!(matches!(
        blockchain.validate_transaction_inputs(&tx2),
        Err(BlockchainError::Transaction(_))
    ));
    let height = blockchain.get_best_height().unwrap();
    assert!(matches!(
        blockchain.mine_block_with_fees(&[tx2], &a1),
        Err(BlockchainError::Transaction(_))
    ));
    assert_eq!(blockchain.get_best_height().unwrap(), height);
}

#[test]
fn a_transaction_that_breaks_a_rule_does_not_verify() {
    let mut wallets = Wallets::new();
    let a1 = wallets.create_wallet().unwrap();
    let a2 = wallets.create_wallet().unwrap();
    let fees = FeeCalculator::new();
    let blockchain = new_chain(&a1);
    let utxo_set = reindexed(&blockchain);
    let tx =
        Transaction::new_utxo_transaction(&a1, &a2, 1000, &utxo_set, &wallets, &fees, 0).unwrap();
    assert!(tx.verify(&blockchain));

    // a fee that the inputs do not cover
    let mut greedy = tx.clone();
    greedy.set_fee(tx.get_fee() + 1);
    assert!(!greedy.verify_balance(&blockchain));
    assert!(!greedy.verify(&blockchain));
    assert!(matches!(
        greedy.verify_balance_detailed(&blockchain),
        Err(BlockchainError::Transaction(_))
    ));

    // a signature of something else
    let mut forged = tx.clone();
    forged.set_signature(0, vec![1u8; 64]);
    assert!(forged.verify_balance(&blockchain));
    assert!(!forged.verify(&blockchain));

    // the key of somebody else
    let thief = wallets.get_wallet(&a2).unwrap();
    let input = &tx.get_vin()[0];
    let stolen = Transaction::from_parts(
        tx.get_id_bytes(),
        vec![TXInput::from_parts(
            input.get_txid().to_vec(),
            input.get_vout(),
            input.get_signature().to_vec(),
            thief.get_public_key().to_vec(),
        )],
        tx.get_vout().to_vec(),
        tx.get_fee(),
    );
    assert!(!stolen.verify(&blockchain));

    // an output that is not there
    let missing = Transaction::from_parts(
        vec![],
        vec![TXInput::from_parts(vec![5u8; 32], 0, vec![], vec![1])],
        vec![TXOutput::from_parts(1, vec![0u8; 20])],
        0,
    );
    assert!(!missing.verify(&blockchain));
    assert!(!missing.verify_balance(&blockchain));
    assert!(matches!(
        missing.get_input_value(&blockchain),
        Err(BlockchainError::Transaction(_))
    ));
    let mut unsigned = missing.clone();
    assert!(matches!(
        unsigned.sign(&blockchain, thief.get_pkcs8()),
        Err(BlockchainError::Transaction(_))
    ));
}

#[test]
fn coinbase_transactions_have_their_shape() {
    let coinbase = Transaction::new_coinbase_tx(TEST_ADDRESS).unwrap();
    assert!(coinbase.is_coinbase());
    assert!(coinbase.verify_coinbase());
    assert_eq!(coinbase.get_fee(), 0);
    assert_eq!(coinbase.get_vin().len(), 1);
    assert_eq!(coinbase.get_vin()[0].get_txid(), &[] as &[u8]);
    assert_eq!(coinbase.get_vin()[0].get_vout(), 0);
    assert_eq!(coinbase.get_vin()[0].get_signature().len(), 16);
    assert!(coinbase.get_vin()[0].get_pub_key().is_empty());
    assert_eq!(coinbase.get_output_value().unwrap(), INITIAL_BLOCK_REWARD);
    assert_eq!(coinbase.get_id(), &coinbase.hash()[..]);
    assert_eq!(coinbase.get_id().len(), 32);
    let blockchain = new_chain(TEST_ADDRESS);
    assert_eq!(coinbase.get_input_value(&blockchain).unwrap(), 0);
    assert!(coinbase.verify(&blockchain));
    // each coinbase is unique
    let other = Transaction::new_coinbase_tx(TEST_ADDRESS).unwrap();
    assert_ne!(coinbase.get_id(), other.get_id());
    // the same extranonce gives the same transaction
    let a = Transaction::new_coinbase_tx_with_extranonce(TEST_ADDRESS, 7, vec![1, 2]).unwrap();
    let b = Transaction::new_coinbase_tx_with_extranonce(TEST_ADDRESS, 7, vec![1, 2]).unwrap();
    assert_eq!(a.get_id(), b.get_id());
    assert_eq!(a.serialize().unwrap(), b.serialize().unwrap());
    let with_fees = Transaction::new_coinbase_tx_with_collected_fees(TEST_ADDRESS, 25).unwrap();
    assert_eq!(with_fees.get_output_value().unwrap(), INITIAL_BLOCK_REWARD + 25);
    assert!(matches!(
        Transaction::new_coinbase_tx_with_reward(TEST_ADDRESS, 0),
        Err(BlockchainError::Transaction(_))
    ));
    assert!(matches!(
        Transaction::new_coinbase_tx("not an address"),
        Err(BlockchainError::InvalidAddress(_))
    ));
    let mut paying = coinbase.clone();
    paying.set_fee(1);
    assert!(!paying.verify_coinbase());
    assert!(coinbase.calculate_fee_rate().unwrap() == 0);
}

#[test]
fn outputs_are_locked_to_key_hashes() {
    let output = TXOutput::new(5, TEST_ADDRESS).unwrap();
    let hash = data_encoding::HEXLOWER
        .decode(b"62e907b15cbf27d5425399ebf6f0fb50ebb88f18")
        .unwrap();
    assert_eq!(output.get_value(), 5);
    assert_eq!(output.get_pub_key_hash(), &hash[..]);
    assert!(output.is_locked_with_key(&hash));
    assert!(!output.is_locked_with_key(&hash[..19]));
    assert!(matches!(
        TXOutput::new(0, TEST_ADDRESS),
        Err(BlockchainError::Transaction(_))
    ));
    assert!(matches!(
        TXOutput::new(5, "1A1zP1eP5QGefi2DMPTfTL5SLmv7DivfNb"),
        Err(BlockchainError::InvalidAddress(_))
    ));
    let input = TXInput::new(&[1, 2], 4);
    assert_eq!(input.get_txid(), &[1, 2]);
    assert_eq!(input.get_vout(), 4);
    assert!(input.get_pub_key().is_empty());
    let sum = Transaction::from_parts(
        vec![],
        vec![],
        vec![
            TXOutput::from_parts(u64::MAX, vec![]),
            TXOutput::from_parts(1, vec![]),
        ],
        0,
    );
    assert!(matches!(
        sum.get_output_value(),
        Err(BlockchainError::Transaction(_))
    ));
}

#[test]
fn blocks_keep_their_bounds() {
    assert!(matches!(
        Block::new_block("None".to_string(), &[], 0, 1),
        Err(BlockchainError::InvalidBlock(_))
    ));
    assert!(matches!(
        Block::new_test_block(0, "None".to_string(), &[], 0, 1),
        Err(BlockchainError::InvalidBlock(_))
    ));
    // a transaction of 100 KiB is taken, one byte more is not
    let with_signature = |length: usize| {
        Transaction::from_parts(
            vec![],
            vec![TXInput::from_parts(vec![], 0, vec![0u8; length], vec![])],
            vec![],
            0,
        )
    };
    let sized = |bytes: usize| {
        // the other parts of the transaction take a few bytes
        let other = with_signature(bytes).serialize().unwrap().len() - bytes;
        let mut tx = with_signature(bytes.saturating_sub(other));
        if tx.serialize().unwrap().len() < bytes {
            // a shorter signature has a shorter length in front of it
            let missing = bytes - tx.serialize().unwrap().len();
            tx = with_signature(bytes.saturating_sub(other) + missing);
        }
        assert_eq!(tx.serialize().unwrap().len(), bytes);
        tx
    };
    assert!(Block::validate_block_constraints(&[sized(100_001)]).is_ok());
    assert!(Block::validate_block_constraints(&[sized(102_400)]).is_ok());
    let big = sized(102_401);
    assert!(matches!(
        Block::validate_block_constraints(&[big.clone()]),
        Err(BlockchainError::InvalidBlock(_))
    ));
    assert!(matches!(
        Block::new_block("None".to_string(), &[big], 0, 1),
        Err(BlockchainError::InvalidBlock(_))
    ));
    // transactions of 1 MiB in all are taken, one byte more is not
    let mut eleven = vec![sized(95_325); 10];
    eleven.push(sized(95_326));
    assert!(Block::validate_block_constraints(&eleven).is_ok());
    eleven.push(sized(11));
    assert!(Block::validate_block_constraints(&eleven).is_err());
    eleven.pop();
    // the block that holds them is larger than 1 MiB
    assert!(matches!(
        Block::new_block_at("None".to_string(), &eleven, 0, 1, 1_000),
        Err(BlockchainError::InvalidBlock(_))
    ));
    let held = Block::from_parts(1_000, "None".to_string(), "h".to_string(), eleven, 0, 0, 1, vec![]);
    assert!(held.get_block_size().unwrap() > 1_048_576);
    assert!(matches!(
        held.validate_block_at(None, 1_000),
        Err(BlockchainError::InvalidBlock(_))
    ));
    // a block of just 1 MiB is built: ten transactions and one that fills it
    let mut filling = vec![sized(95_325); 10];
    let block = Block::new_block_at("None".to_string(), &filling, 0, 1, 1_000).unwrap();
    let room = 1_048_576 - block.get_block_size().unwrap();
    filling.push(sized(room));
    let full = Block::new_block_at("None".to_string(), &filling, 0, 1, 1_000);
    if let Ok(full) = full {
        assert!(full.get_block_size().unwrap() <= 1_048_576);
    }
    let small = Transaction::new_coinbase_tx(TEST_ADDRESS).unwrap();
    assert!(Block::validate_block_constraints(&vec![small.clone(); 4000]).is_ok());
    assert!(Block::validate_block_constraints(&vec![small; 4001]).is_err());
}

#[test]
fn blocks_are_validated_rule_by_rule() {
    let coinbase = Transaction::new_coinbase_tx(TEST_ADDRESS).unwrap();
    let block = Block::new_block_at("None".to_string(), &[coinbase.clone()], 0, 2, 1_000).unwrap();
    assert_eq!(block.get_timestamp(), 1_000);
    assert!(block.validate_block_at(None, 1_000).unwrap());
    // the timestamp against the clock: two hours ahead and not a millisecond more
    assert!(block.validate_block_at(None, 1_000 - 7_200_000).unwrap());
    assert!(!block.validate_block_at(None, 1_000 - 7_200_001).unwrap());
    // the timestamp against the parent
    assert!(block.validate_block_at(Some(999), 1_000).unwrap());
    assert!(!block.validate_block_at(Some(1_000), 1_000).unwrap());
    // the Merkle root
    let wrong_root = Block::from_parts(
        1_000,
        "None".to_string(),
        block.get_hash().to_string(),
        block.get_transactions().to_vec(),
        block.get_nonce(),
        0,
        2,
        vec![0u8; 32],
    );
    assert!(!wrong_root.verify_merkle_root().unwrap());
    assert!(!wrong_root.validate_block_at(None, 1_000).unwrap());
    // the coinbase comes first and alone
    let two = Block::new_block_at(
        "None".to_string(),
        &[coinbase.clone(), Transaction::new_coinbase_tx(TEST_ADDRESS).unwrap()],
        0,
        2,
        1_000,
    )
    .unwrap();
    assert!(!two.validate_block_at(None, 1_000).unwrap());
    let spend = Transaction::from_parts(
        vec![1],
        vec![TXInput::from_parts(vec![5u8; 32], 0, vec![], vec![1])],
        vec![TXOutput::from_parts(1, vec![0u8; 20])],
        0,
    );
    let no_coinbase =
        Block::new_block_at("None".to_string(), &[spend.clone()], 0, 2, 1_000).unwrap();
    assert!(!no_coinbase.validate_block_at(None, 1_000).unwrap());
    assert!(matches!(
        no_coinbase.validate_coinbase_reward(1),
        Err(BlockchainError::InvalidBlock(_))
    ));
    // the reward: block reward plus fees
    let mut paying = spend.clone();
    paying.set_fee(5);
    let underpaid =
        Block::new_block_at("None".to_string(), &[coinbase.clone(), paying.clone()], 0, 2, 1_000)
            .unwrap();
    assert_eq!(underpaid.get_total_fees(), 5);
    assert!(!underpaid.validate_block_at(None, 1_000).unwrap());
    let rewarded = Transaction::new_coinbase_tx_with_collected_fees(TEST_ADDRESS, 5).unwrap();
    let paid = Block::new_block_at("None".to_string(), &[rewarded, paying], 0, 2, 1_000).unwrap();
    assert!(paid.validate_block_at(None, 1_000).unwrap());
    // hash of all identifiers
    let mut ids = Vec::new();
    for tx in paid.get_transactions() {
        ids.extend_from_slice(tx.get_id());
    }
    assert_eq!(paid.hash_transactions(), sha256_digest(&ids));
}

#[test]
fn merkle_proofs_of_a_block() {
    let txs: Vec<Transaction> = (0..5)
        .map(|_| Transaction::new_coinbase_tx(TEST_ADDRESS).unwrap())
        .collect();
    let block = Block::new_test_block(1, "None".to_string(), &txs, 0, 1).unwrap();
    assert!(block.verify_merkle_root().unwrap());
    for index in 0..5 {
        let proof = block.generate_merkle_proof(index).unwrap();
        assert_eq!(proof.transaction_hash, txs[index].get_id());
        assert_eq!(proof.merkle_root, block.get_merkle_root());
        assert!(block.verify_merkle_proof(&proof).unwrap());
    }
    assert!(matches!(
        block.generate_merkle_proof(5),
        Err(BlockchainError::InvalidBlock(_))
    ));
    let other = Block::new_test_block(1, "None".to_string(), &txs[..2], 0, 1).unwrap();
    let proof = other.generate_merkle_proof(0).unwrap();
    assert!(!block.verify_merkle_proof(&proof).unwrap());
}

#[test]
fn the_store_is_read_by_hash() {
    let mut blockchain = new_chain(TEST_ADDRESS);
    let genesis_hash = blockchain.get_tip_hash();
    let block = blockchain.mine_block(&[Transaction::new_coinbase_tx(TEST_ADDRESS).unwrap()]).unwrap();
    assert_eq!(blockchain.get_tip_hash(), block.get_hash());
    assert_eq!(block.get_pre_block_hash(), genesis_hash);
    assert!(blockchain.block_exists(&genesis_hash).unwrap());
    assert!(!blockchain.block_exists("nothing").unwrap());
    assert!(blockchain.get_block("nothing").unwrap().is_none());
    assert_eq!(blockchain.get_block_height(block.get_hash()).unwrap(), 1);
    assert!(matches!(
        blockchain.get_block_height("nothing"),
        Err(BlockchainError::InvalidBlock(_))
    ));
    let by_bytes = blockchain
        .get_block_by_bytes(genesis_hash.as_bytes())
        .unwrap()
        .unwrap();
    assert_eq!(by_bytes.get_height(), 0);
    assert!(blockchain.get_block_by_bytes(b"nothing").unwrap().is_none());
    assert_eq!(
        blockchain.get_block_hashes(),
        vec![block.get_hash_bytes(), genesis_hash.as_bytes().to_vec()]
    );
    assert!(blockchain.is_in_main_chain(&genesis_hash).unwrap());
    assert!(blockchain.is_in_main_chain(block.get_hash()).unwrap());
    assert!(!blockchain.is_in_main_chain("nothing").unwrap());
    let mut walk = blockchain.iterator();
    assert_eq!(walk.next().unwrap().get_height(), 1);
    assert_eq!(walk.next().unwrap().get_height(), 0);
    assert!(walk.next().is_none());
    assert!(walk.next().is_none());
    let recent = blockchain.get_recent_blocks(10).unwrap();
    assert_eq!(recent.len(), 2);
    assert_eq!(recent[0].get_height(), 0);
    assert_eq!(blockchain.get_recent_blocks(1).unwrap()[0].get_height(), 1);
    let found = blockchain.find_transaction(block.get_transactions()[0].get_id()).unwrap();
    assert_eq!(found.get_id(), block.get_transactions()[0].get_id());
    assert!(blockchain.find_transaction(&[1, 2, 3]).is_none());
    assert_eq!(blockchain.get_db_path(), "test_blockchain");

    blockchain.remove_block(block.get_hash()).unwrap();
    assert_eq!(blockchain.get_tip_hash(), genesis_hash);
    assert_eq!(blockchain.get_best_height().unwrap(), 0);
    assert!(matches!(
        blockchain.remove_block("nothing"),
        Err(BlockchainError::InvalidBlock(_))
    ));
    blockchain.set_tip_hash("lost");
    assert!(matches!(
        blockchain.get_best_height(),
        Err(BlockchainError::Database(_))
    ));
    assert!(matches!(
        blockchain.mine_block(&[]),
        Err(BlockchainError::Database(_))
    ));
    assert!(matches!(
        blockchain.add_block(&block),
        Err(BlockchainError::Database(_))
    ));
    assert!(blockchain.get_block_hashes().is_empty());
}

#[test]
fn add_block_is_idempotent_and_moves_the_tip_upward_only() {
    let mut blockchain = new_chain(TEST_ADDRESS);
    let tip = blockchain.get_tip_hash();
    let higher = Block::new_block(
        tip.clone(),
        &[Transaction::new_coinbase_tx(TEST_ADDRESS).unwrap()],
        1,
        1,
    )
    .unwrap();
    let level = Block::new_block(
        "None".to_string(),
        &[Transaction::new_coinbase_tx(TEST_ADDRESS).unwrap()],
        0,
        1,
    )
    .unwrap();
    blockchain.add_block(&level).unwrap();
    assert_eq!(blockchain.get_tip_hash(), tip);
    blockchain.add_block(&higher).unwrap();
    assert_eq!(blockchain.get_tip_hash(), higher.get_hash());
    let store_before = blockchain.clone().into_store();
    blockchain.add_block(&higher).unwrap();
    blockchain.add_block(&level).unwrap();
    let store_after = blockchain.clone().into_store();
    assert_eq!(store_before.blocks.len(), store_after.blocks.len());
    assert_eq!(store_before.tip, store_after.tip);
    assert_eq!(store_after.blocks.len(), 3);
}

#[test]
fn mining_without_a_miner_takes_the_transactions_as_they_are() {
    let mut blockchain = new_chain(TEST_ADDRESS);
    assert!(matches!(
        blockchain.mine_block(&[]),
        Err(BlockchainError::InvalidBlock(_))
    ));
    let only_coinbase = blockchain.mine_block_with_fees(&[], TEST_ADDRESS).unwrap();
    assert_eq!(only_coinbase.get_transactions().len(), 1);
    assert!(only_coinbase.validate_block(None).unwrap());
    assert!(matches!(
        blockchain.mine_block_with_fees(&[], "nobody"),
        Err(BlockchainError::InvalidAddress(_))
    ));
    let given = blockchain
        .mine_block_with(&[], Some(TEST_ADDRESS), vec![9, 9], 1_234)
        .unwrap();
    assert_eq!(given.get_timestamp(), 1_234);
    assert_eq!(given.get_height(), 2);
    assert_eq!(given.get_transactions()[0].get_vin()[0].get_signature(), &[9, 9]);
    assert_eq!(given.get_pre_block_hash(), only_coinbase.get_hash());
}

#[test]
fn retarget_scenario() {
    let mut blockchain = new_chain(TEST_ADDRESS);
    let genesis = blockchain.get_block(&blockchain.get_tip_hash()).unwrap().unwrap();
    let start = genesis.get_timestamp();
    for i in 1..=9i64 {
        let block = blockchain
            .mine_block_with(&[], Some(TEST_ADDRESS), vec![i as u8], start + i * 1_000)
            .unwrap();
        assert_eq!(block.get_difficulty(), genesis.get_difficulty());
    }
    assert_eq!(blockchain.calculate_next_difficulty(10).unwrap(), genesis.get_difficulty() + 2);
    let tenth = blockchain
        .mine_block_with(&[], Some(TEST_ADDRESS), vec![10], start + 10_000)
        .unwrap();
    assert_eq!(tenth.get_height(), 10);
    assert_eq!(tenth.get_difficulty(), genesis.get_difficulty() + 2);
    assert!(ProofOfWork::validate(&tenth));
    let eleventh = blockchain
        .mine_block_with(&[], Some(TEST_ADDRESS), vec![11], start + 11_000)
        .unwrap();
    assert_eq!(eleventh.get_difficulty(), 6);
}

#[test]
fn synchronization_sorts_by_height_and_passes_over_what_it_knows() {
    let mut blockchain = new_chain(TEST_ADDRESS);
    let tip = blockchain.get_tip_hash();
    let mut blocks = Vec::new();
    let mut prev_hash = tip;
    for i in 1..=3 {
        let block = Block::new_block(
            prev_hash,
            &[Transaction::new_coinbase_tx(TEST_ADDRESS).unwrap()],
            i,
            1,
        )
        .unwrap();
        prev_hash = block.get_hash().to_string();
        blocks.push(block);
    }
    let shuffled = vec![blocks[2].clone(), blocks[0].clone(), blocks[1].clone()];
    assert!(blockchain.sync_with_peer(&shuffled).unwrap());
    assert_eq!(blockchain.get_best_height().unwrap(), 3);
    assert_eq!(blockchain.get_tip_hash(), blocks[2].get_hash());
    assert!(!blockchain.sync_with_peer(&shuffled).unwrap());
    assert!(!blockchain.sync_with_peer(&[]).unwrap());
    assert!(blockchain.validate_block_for_sync(&blocks[0]).unwrap());
    let orphan = Block::new_block(
        "unknown".to_string(),
        &[Transaction::new_coinbase_tx(TEST_ADDRESS).unwrap()],
        9,
        1,
    )
    .unwrap();
    assert!(!blockchain.validate_block_for_sync(&orphan).unwrap());
}

#[test]
fn the_chain_is_linked_from_the_tip_to_the_first_block() {
    let mut blockchain = new_chain(TEST_ADDRESS);
    for _ in 0..4 {
        pause();
        blockchain.mine_block_with_fees(&[], TEST_ADDRESS).unwrap();
    }
    assert_eq!(blockchain.get_best_height().unwrap(), 4);
    let mut walk = blockchain.iterator();
    let mut expected_hash = blockchain.get_tip_hash();
    let mut expected_height: usize = 4;
    let mut later: Option<i64> = None;
    loop {
        let block = walk.next().unwrap();
        assert_eq!(block.get_hash(), expected_hash);
        assert_eq!(block.get_height(), expected_height);
        assert!(ProofOfWork::validate(&block));
        assert!(block.verify_merkle_root().unwrap());
        if let Some(later) = later {
            assert!(block.get_timestamp() < later);
        }
        later = Some(block.get_timestamp());
        if expected_height == 0 {
            assert_eq!(block.get_pre_block_hash(), "None");
            break;
        }
        expected_hash = block.get_pre_block_hash();
        expected_height -= 1;
    }
    assert!(walk.next().is_none());
}

#[test]
fn mining_with_given_values_says_what_is_wrong() {
    let mut wallets = Wallets::new();
    let a1 = wallets.create_wallet().unwrap();
    let a2 = wallets.create_wallet().unwrap();
    let fees = FeeCalculator::new();
    let store = empty_store();
    let mut blockchain =
        Blockchain::create_blockchain_with(&a1, "test", store, vec![1u8; 16], 1_000).unwrap();
    let again =
        Blockchain::create_blockchain_with(&a1, "test", empty_store(), vec![1u8; 16], 1_000).unwrap();
    // the same extranonce and time give the same first block
    assert_eq!(blockchain.get_tip_hash(), again.get_tip_hash());
    assert!(matches!(
        Blockchain::create_blockchain_with("nobody", "test", empty_store(), vec![1u8; 16], 1_000),
        Err(BlockchainError::InvalidAddress(_))
    ));
    let genesis = blockchain.get_block(&blockchain.get_tip_hash()).unwrap().unwrap();
    assert_eq!(genesis.get_timestamp(), 1_000);
    assert_eq!(genesis.get_difficulty(), 4);
    assert_eq!(genesis.get_pre_block_hash(), "None");

    let utxo_set = reindexed(&blockchain);
    let tx1 =
        Transaction::new_utxo_transaction(&a1, &a2, 1000, &utxo_set, &wallets, &fees, 0).unwrap();
    let tx2 =
        Transaction::new_utxo_transaction(&a1, &a2, 2000, &utxo_set, &wallets, &fees, 0).unwrap();
    let mut broken = tx1.clone();
    broken.set_fee(tx1.get_fee() + 1);
    let tip = blockchain.get_tip_hash();
    // a transaction that is not valid comes before a double spend
    assert!(matches!(
        blockchain.mine_block_with(&[tx1.clone(), tx2.clone(), broken.clone()], Some(&a1), vec![2u8; 16], 2_000),
        Err(BlockchainError::Transaction(m)) if !m.starts_with("Double-spending detected")
    ));
    assert!(matches!(
        blockchain.mine_block_with(&[tx1.clone(), tx2.clone()], Some(&a1), vec![2u8; 16], 2_000),
        Err(BlockchainError::Transaction(m)) if m.starts_with("Double-spending detected")
    ));
    assert!(matches!(
        blockchain.mine_block_with(&[tx1.clone()], Some("nobody"), vec![2u8; 16], 2_000),
        Err(BlockchainError::InvalidAddress(_))
    ));
    assert!(matches!(
        blockchain.mine_block_with(&[], None, vec![2u8; 16], 2_000),
        Err(BlockchainError::InvalidBlock(_))
    ));
    assert_eq!(blockchain.get_tip_hash(), tip);
    assert_eq!(blockchain.get_best_height().unwrap(), 0);

    // the timestamp is taken as it is, also one that is not after the parent's
    let mut early = blockchain.clone();
    let block = early
        .mine_block_with(&[tx1.clone()], Some(&a1), vec![2u8; 16], 1_000)
        .unwrap();
    assert_eq!(block.get_timestamp(), 1_000);
    assert_eq!(early.get_best_height().unwrap(), 1);
    assert_eq!(block.validate_block_at(Some(1_000), 5_000).unwrap(), false);
    assert_eq!(blockchain.validate_block_at(&block, 5_000).unwrap(), false);

    let block = blockchain
        .mine_block_with(&[tx1.clone()], Some(&a1), vec![2u8; 16], 2_000)
        .unwrap();
    assert_eq!(block.get_timestamp(), 2_000);
    assert_eq!(block.get_height(), 1);
    assert_eq!(block.get_difficulty(), 4);
    assert_eq!(blockchain.get_tip_hash(), block.get_hash());
    let mut same = again;
    let twin = same
        .mine_block_with(&[tx1], Some(&a1), vec![2u8; 16], 2_000)
        .unwrap();
    assert_eq!(twin.get_hash(), block.get_hash());
    blockchain.set_tip_hash("lost");
    assert!(matches!(
        blockchain.mine_block_with(&[], Some(&a1), vec![2u8; 16], 3_000),
        Err(BlockchainError::Database(_))
    ));
}

#[test]
fn a_block_is_validated_in_full_on_its_chain() {
    let mut wallets = Wallets::new();
    let a1 = wallets.create_wallet().unwrap();
    let a2 = wallets.create_wallet().unwrap();
    let fees = FeeCalculator::new();
    let blockchain =
        Blockchain::create_blockchain_with(&a1, "test", empty_store(), vec![1u8; 16], 1_000).unwrap();
    let genesis = blockchain.get_block(&blockchain.get_tip_hash()).unwrap().unwrap();
    assert!(blockchain.validate_block_at(&genesis, 1_000).unwrap());
    let utxo_set = reindexed(&blockchain);
    let tx =
        Transaction::new_utxo_transaction(&a1, &a2, 1000, &utxo_set, &wallets, &fees, 0).unwrap();

    let mut mined = blockchain.clone();
    let block = mined
        .mine_block_with(&[tx.clone()], Some(&a1), vec![2u8; 16], 2_000)
        .unwrap();
    // valid on the chain before it, and on the chain that holds it
    assert!(blockchain.validate_block_at(&block, 2_000).unwrap());
    assert!(mined.validate_block_at(&block, 2_000).unwrap());
    assert!(blockchain.validate_block(&block).unwrap());
    // too far ahead of the clock
    assert_eq!(blockchain.validate_block_at(&block, 2_000 - 7_200_001).unwrap(), false);

    // a block whose transaction spends what its parent's chain does not hold
    let other =
        Blockchain::create_blockchain_with(&a2, "test", empty_store(), vec![3u8; 16], 1_000).unwrap();
    let mut elsewhere = other.clone();
    let coinbase = Transaction::new_coinbase_tx_with_extranonce(&a1, 5_000_000_000 + tx.get_fee(), vec![4u8; 16]).unwrap();
    let foreign = Block::new_block_at(other.get_tip_hash(), &[coinbase, tx.clone()], 1, 4, 2_000).unwrap();
    assert!(foreign.validate_block_at(Some(1_000), 2_000).unwrap());
    assert_eq!(other.validate_block_at(&foreign, 2_000).unwrap(), false);
    elsewhere.add_block(&foreign).unwrap();
    assert_eq!(elsewhere.validate_block_at(&foreign, 2_000).unwrap(), false);

    // a block that spends an output twice in a row of blocks
    let again = Block::new_block_at(
        block.get_hash().to_string(),
        &[
            Transaction::new_coinbase_tx_with_extranonce(&a1, 5_000_000_000 + tx.get_fee(), vec![5u8; 16]).unwrap(),
            tx,
        ],
        2,
        4,
        3_000,
    )
    .unwrap();
    assert_eq!(mined.validate_block_at(&again, 3_000).unwrap(), false);
}

#[test]
fn a_block_without_transactions_is_dropped_and_the_rest_is_taken() {
    let mut blockchain = new_chain(TEST_ADDRESS);
    let tip = blockchain.get_tip_hash();
    // at difficulty 0 every digest passes, so the block fails for its transactions alone
    let empty = Block::from_parts(5_000, tip.clone(), "empty".to_string(), vec![], 0, 1, 0, vec![]);
    assert!(ProofOfWork::validate(&empty));
    assert_eq!(blockchain.validate_block_for_sync(&empty).unwrap(), false);
    let coinbase = Transaction::new_coinbase_tx(TEST_ADDRESS).unwrap();
    let good = Block::new_block(tip, &[coinbase], 1, 1).unwrap();
    assert!(blockchain.validate_block_for_sync(&good).unwrap());
    // the batch goes on behind the block that was dropped
    assert!(blockchain.sync_with_peer(&[empty.clone(), good.clone()]).unwrap());
    assert!(!blockchain.block_exists("empty").unwrap());
    assert!(blockchain.block_exists(good.get_hash()).unwrap());
    assert_eq!(blockchain.get_tip_hash(), good.get_hash());
    assert!(!blockchain.sync_with_peer(&[empty]).unwrap());
}

#[test]
fn a_first_block_that_was_made_passes_validation() {
    let blockchain =
        Blockchain::create_blockchain_with(TEST_ADDRESS, "test", empty_store(), vec![1u8; 16], 10_000_000)
            .unwrap();
    let genesis = blockchain.get_block(&blockchain.get_tip_hash()).unwrap().unwrap();
    assert!(ProofOfWork::validate(&genesis));
    assert!(genesis.get_block_size().unwrap() <= 1_048_576);
    // valid from two hours before its timestamp on
    assert!(genesis.validate_block_at(None, 10_000_000 - 7_200_000).unwrap());
    assert!(genesis.validate_block_at(None, 10_000_000).unwrap());
    assert!(genesis.validate_block_at(None, i64::MAX - 7_200_000).unwrap());
    assert_eq!(genesis.validate_block_at(None, 10_000_000 - 7_200_001).unwrap(), false);
    assert!(blockchain.validate_block_at(&genesis, 10_000_000).unwrap());
    let fresh = new_chain(TEST_ADDRESS);
    let first = fresh.get_block(&fresh.get_tip_hash()).unwrap().unwrap();
    assert!(first.validate_block(None).unwrap());
    assert!(fresh.validate_block(&first).unwrap());
}

#[test]
fn a_spend_from_a_rebuilt_index_verifies() {
    let mut wallets = Wallets::new();
    let a1 = wallets.create_wallet().unwrap();
    let a2 = wallets.create_wallet().unwrap();
    let fees = FeeCalculator::new();
    let mut blockchain = new_chain(&a1);
    for round in 0..3u64 {
        let utxo_set = reindexed(&blockchain);
        let tx = Transaction::new_utxo_transaction(
            &a1,
            &a2,
            INITIAL_BLOCK_REWARD - 1,
            &utxo_set,
            &wallets,
            &fees,
            0,
        )
        .unwrap();
        // every transaction so far is spent as a whole or not at all
        assert!(tx.verify(&blockchain), "round {round}");
        assert!(!tx.is_coinbase());
        assert!(tx.verify_balance(&blockchain));
        pause();
        blockchain.mine_block_with_fees(&[tx], &a1).unwrap();
    }
    assert_eq!(blockchain.get_best_height().unwrap(), 3);
}
