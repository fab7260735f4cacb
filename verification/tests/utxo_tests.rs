use architect_chain::chain::block::Block;
use architect_chain::chain::blockchain::{Blockchain, ChainStore, UtxoRecord};
use architect_chain::chain::transaction::{TXInput, TXOutput, Transaction};
use architect_chain::error::BlockchainError;
use architect_chain::storage::UTXOSet;

const TEST_ADDRESS: &str = "1A1zP1eP5QGefi2DMPTfTL5SLmv7DivfNa";

fn chain_with(records: Vec<UtxoRecord>) -> Blockchain {
    let store = ChainStore {
        tip: Some("tip".to_string()),
        blocks: Vec::new(),
        chainstate: records,
    };
    Blockchain::new_blockchain_with_path("utxo", store).unwrap()
}

fn record(txid: &[u8], outputs: &[(u64, u8)]) -> UtxoRecord {
    UtxoRecord {
        txid: txid.to_vec(),
        outputs: outputs
            .iter()
            .map(|(value, owner)| TXOutput::from_parts(*value, vec![*owner; 20]))
            .collect(),
    }
}

fn spend(id: u8, inputs: &[(&[u8], usize)], outputs: &[(u64, u8)]) -> Transaction {
    Transaction::from_parts(
        vec![id; 32],
        inputs
            .iter()
            .map(|(txid, vout)| TXInput::from_parts(txid.to_vec(), *vout, vec![], vec![1]))
            .collect(),
        outputs
            .iter()
            .map(|(value, owner)| TXOutput::from_parts(*value, vec![*owner; 20]))
            .collect(),
        0,
    )
}

fn block_of(transactions: &[Transaction]) -> Block {
    Block::new_test_block(1, "None".to_string(), transactions, 0, 1).unwrap()
}

fn contents(set: &UTXOSet) -> Vec<(Vec<u8>, Vec<u64>)> {
    set.get_blockchain()
        .get_chainstate()
        .iter()
        .map(|r| {
            (
                r.txid.clone(),
                r.outputs.iter().map(|o| o.get_value()).collect(),
            )
        })
        .collect()
}

#[test]
fn spendable_outputs_are_gathered_in_store_order() {
    let set = UTXOSet::new(chain_with(vec![
        record(&[1], &[(5, 7), (6, 8), (7, 7)]),
        record(&[2], &[(1, 8)]),
        record(&[3], &[(10, 7), (20, 7)]),
    ]));
    let (gathered, selected) = set.find_spendable_outputs(&[7u8; 20], 13);
    assert_eq!(gathered, 22);
    assert_eq!(selected.len(), 2);
    assert_eq!(selected[0].txid, vec![1]);
    assert_eq!(selected[0].txid_hex, "01");
    assert_eq!(selected[0].vouts, vec![0, 2]);
    assert_eq!(selected[1].txid, vec![3]);
    assert_eq!(selected[1].vouts, vec![0]);

    let (gathered, selected) = set.find_spendable_outputs(&[7u8; 20], 1000);
    assert_eq!(gathered, 42);
    assert_eq!(selected.len(), 2);
    assert_eq!(selected[1].vouts, vec![0, 1]);

    let (gathered, selected) = set.find_spendable_outputs(&[7u8; 20], 0);
    assert_eq!(gathered, 0);
    assert!(selected.is_empty());

    let (gathered, selected) = set.find_spendable_outputs_safe(&[9u8; 20], 5).unwrap();
    assert_eq!(gathered, 0);
    assert!(selected.is_empty());

    let values: Vec<u64> = set.find_utxo(&[7u8; 20]).iter().map(|o| o.get_value()).collect();
    assert_eq!(values, vec![5, 7, 10, 20]);
    assert_eq!(set.find_utxo_safe(&[8u8; 20]).unwrap().len(), 2);
    assert_eq!(set.count_transactions(), 3);
    assert_eq!(set.count_transactions_safe().unwrap(), 3);
}

#[test]
fn gathering_stops_at_the_largest_amount() {
    let set = UTXOSet::new(chain_with(vec![record(
        &[1],
        &[(u64::MAX - 1, 7), (5, 7), (6, 7)],
    )]));
    let (gathered, selected) = set.find_spendable_outputs(&[7u8; 20], u64::MAX);
    assert_eq!(gathered, u64::MAX);
    assert_eq!(selected[0].vouts, vec![0, 1]);
}

#[test]
fn applying_a_block_spends_by_place_and_writes_outputs() {
    let mut set = UTXOSet::new(chain_with(vec![
        record(&[1], &[(5, 7), (6, 8), (7, 7)]),
        record(&[2], &[(1, 8)]),
    ]));
    let coinbase = Transaction::new_coinbase_tx(TEST_ADDRESS).unwrap();
    let tx = spend(9, &[(&[1], 1), (&[2], 0)], &[(4, 3), (3, 7)]);
    set.update_safe(&block_of(&[coinbase.clone(), tx])).unwrap();
    assert_eq!(
        contents(&set),
        vec![
            (vec![1], vec![5, 7]),
            (coinbase.get_id_bytes(), vec![5_000_000_000]),
            (vec![9u8; 32], vec![4, 3]),
        ]
    );
    // a place that the record does not have takes nothing
    let beyond = spend(10, &[(&[1], 5)], &[(1, 1)]);
    set.update(&block_of(&[beyond]));
    assert_eq!(contents(&set)[0], (vec![1], vec![5, 7]));
    assert_eq!(contents(&set).len(), 4);
}

#[test]
fn a_block_that_names_a_missing_record_changes_nothing() {
    let mut set = UTXOSet::new(chain_with(vec![record(&[1], &[(5, 7)])]));
    let before = contents(&set);
    let tx = spend(9, &[(&[1], 0), (&[4], 0)], &[(5, 3)]);
    let coinbase = Transaction::new_coinbase_tx(TEST_ADDRESS).unwrap();
    let block = block_of(&[coinbase, tx]);
    assert!(matches!(
        set.update_safe(&block),
        Err(BlockchainError::Database(_))
    ));
    assert_eq!(contents(&set), before);
    set.update(&block);
    assert_eq!(contents(&set), before);
}

#[test]
fn applying_a_block_twice_is_applying_it_once() {
    // a block of coinbases only
    let mut set = UTXOSet::new(chain_with(vec![record(&[1], &[(5, 7)])]));
    let block = block_of(&[
        Transaction::new_coinbase_tx(TEST_ADDRESS).unwrap(),
        Transaction::new_coinbase_tx(TEST_ADDRESS).unwrap(),
    ]);
    set.update_safe(&block).unwrap();
    let once = contents(&set);
    set.update_safe(&block).unwrap();
    assert_eq!(contents(&set), once);

    // a block that spends a record whole: the second call is rejected
    let mut set = UTXOSet::new(chain_with(vec![record(&[1], &[(5, 7)])]));
    let block = block_of(&[
        Transaction::new_coinbase_tx(TEST_ADDRESS).unwrap(),
        spend(9, &[(&[1], 0)], &[(5, 3)]),
    ]);
    set.update_safe(&block).unwrap();
    let once = contents(&set);
    assert!(set.update_safe(&block).is_err());
    assert_eq!(contents(&set), once);
}

#[test]
fn rebuilding_keeps_the_outputs_that_are_not_spent() {
    let store = ChainStore {
        tip: None,
        blocks: Vec::new(),
        chainstate: Vec::new(),
    };
    let mut blockchain =
        Blockchain::create_blockchain_with_path(TEST_ADDRESS, "utxo", store).unwrap();
    let funding = Transaction::from_parts(
        vec![1u8; 32],
        vec![TXInput::from_parts(vec![], 0, vec![1], vec![])],
        vec![
            TXOutput::from_parts(5, vec![7; 20]),
            TXOutput::from_parts(6, vec![7; 20]),
            TXOutput::from_parts(7, vec![7; 20]),
        ],
        0,
    );
    let tip = blockchain.get_tip_hash();
    let first = Block::new_block(tip, &[funding], 1, 1).unwrap();
    blockchain.add_block(&first).unwrap();
    let spending = spend(9, &[(&[1u8; 32], 1)], &[(6, 3)]);
    let second = Block::new_block(first.get_hash().to_string(), &[spending], 2, 1).unwrap();
    blockchain.add_block(&second).unwrap();
    assert_eq!(blockchain.get_best_height().unwrap(), 2);

    let mut set = UTXOSet::new(blockchain);
    set.reindex_safe().unwrap();
    let found = contents(&set);
    assert_eq!(found.len(), 3);
    assert_eq!(found[0], (vec![9u8; 32], vec![6]));
    assert_eq!(found[1], (vec![1u8; 32], vec![5, 7]));
    assert_eq!(found[2].1, vec![5_000_000_000]);
    let utxo = set.get_blockchain().find_utxo();
    assert_eq!(utxo.len(), 3);
    let chain = set.into_blockchain();
    assert_eq!(chain.get_chainstate().len(), 3);
}

#[test]
fn rebuilding_agrees_with_applying_block_by_block() {
    let store = ChainStore {
        tip: None,
        blocks: Vec::new(),
        chainstate: Vec::new(),
    };
    let mut blockchain =
        Blockchain::create_blockchain_with_path(TEST_ADDRESS, "utxo", store).unwrap();
    let mut applied = UTXOSet::new(blockchain.clone());
    let genesis = blockchain
        .get_block(&blockchain.get_tip_hash())
        .unwrap()
        .unwrap();
    applied.update_safe(&genesis).unwrap();
    for _ in 0..3 {
        let block = blockchain.mine_block_with_fees(&[], TEST_ADDRESS).unwrap();
        applied.update_safe(&block).unwrap();
    }
    let mut rebuilt = UTXOSet::new(blockchain);
    rebuilt.reindex();
    let mut a = contents(&applied);
    let mut b = contents(&rebuilt);
    a.sort();
    b.sort();
    assert_eq!(a, b);
    assert_eq!(a.len(), 4);
}

fn coinbase(id: u8, value: u64, owner: u8) -> Transaction {
    Transaction::from_parts(
        vec![id; 32],
        vec![TXInput::from_parts(vec![], 0, vec![], vec![])],
        vec![TXOutput::from_parts(value, vec![owner; 20])],
        0,
    )
}

fn linked_block(hash: &str, parent: &str, height: usize, transactions: Vec<Transaction>) -> Block {
    Block::from_parts(
        height as i64 + 1,
        parent.to_string(),
        hash.to_string(),
        transactions,
        0,
        height,
        1,
        vec![0; 32],
    )
}

#[test]
fn rebuilding_agrees_with_applying_where_outputs_are_spent_highest_place_first() {
    let first = coinbase(1, 50, 1);
    let pay = spend(3, &[(&[1; 32], 0)], &[(20, 2), (30, 1)]);
    let spend_change = spend(5, &[(&[3; 32], 1)], &[(30, 3)]);
    let spend_payment = spend(7, &[(&[3; 32], 0)], &[(20, 4)]);
    let blocks = vec![
        linked_block("b0", "None", 0, vec![first]),
        linked_block("b1", "b0", 1, vec![coinbase(2, 50, 1), pay]),
        linked_block("b2", "b1", 2, vec![coinbase(4, 50, 1), spend_change]),
        linked_block("b3", "b2", 3, vec![coinbase(6, 50, 1), spend_payment]),
    ];
    let store = ChainStore {
        tip: Some("b3".to_string()),
        blocks: blocks.clone(),
        chainstate: Vec::new(),
    };
    let blockchain = Blockchain::new_blockchain_with_path("utxo", store).unwrap();
    assert_eq!(blockchain.get_best_height().unwrap(), 3);

    let mut applied = UTXOSet::new(blockchain.clone());
    for block in &blocks {
        applied.update_safe(block).unwrap();
    }
    let mut rebuilt = UTXOSet::new(blockchain);
    rebuilt.reindex();

    let mut a = contents(&applied);
    let mut b = contents(&rebuilt);
    a.sort();
    b.sort();
    assert_eq!(a, b);
    assert_eq!(
        a,
        vec![
            (vec![2; 32], vec![50]),
            (vec![4; 32], vec![50]),
            (vec![5; 32], vec![30]),
            (vec![6; 32], vec![50]),
            (vec![7; 32], vec![20]),
        ]
    );
}

#[test]
fn the_balance_is_the_sum_of_what_is_locked_with_the_key() {
    let set = UTXOSet::new(chain_with(vec![
        record(&[1; 32], &[(5, 1), (7, 2), (11, 1)]),
        record(&[2; 32], &[(13, 1)]),
    ]));
    assert_eq!(set.get_balance(&[1; 20]), Some(29));
    assert_eq!(set.get_balance(&[2; 20]), Some(7));
    assert_eq!(set.get_balance(&[3; 20]), Some(0));
    let rich = UTXOSet::new(chain_with(vec![record(
        &[1; 32],
        &[(u64::MAX, 1), (1, 1)],
    )]));
    assert_eq!(rich.get_balance(&[1; 20]), None);
}
