use architect_chain::chain::block::Block;
use architect_chain::chain::blockchain::{Blockchain, ChainStore};
use architect_chain::chain::fees::FeeCalculator;
use architect_chain::chain::Transaction;
use architect_chain::cli::commands::{FeeModeArg, FeePriorityArg};
use architect_chain::chain::fees::FeePriority;
use architect_chain::config::Config;
use architect_chain::error::BlockchainError;
use architect_chain::network::server::{
    send_tx, OpType, Outgoing, Package, Server, CENTRAL_NODE, NODE_VERSION, TRANSACTION_THRESHOLD,
};
use architect_chain::storage::UTXOSet;
use architect_chain::wallet::Wallets;

const TEST_ADDRESS: &str = "1A1zP1eP5QGefi2DMPTfTL5SLmv7DivfNa";

fn empty_store() -> ChainStore {
    ChainStore {
        tip: None,
        blocks: Vec::new(),
        chainstate: Vec::new(),
    }
}

fn new_chain(address: &str) -> Blockchain {
    Blockchain::create_blockchain_with_path(address, "node", empty_store()).unwrap()
}

fn node(address: &str, chain: Blockchain) -> Server {
    let mut config = Config::new();
    config.set_node_addr(address.to_string());
    Server::with_config(chain, config)
}

fn deliver(to: &mut Server, messages: Vec<Outgoing>) -> Vec<Outgoing> {
    let mut replies = Vec::new();
    for message in messages {
        replies.extend(to.process_message(message.package).unwrap());
    }
    replies
}

#[test]
fn test_server_creation() {
    let blockchain = new_chain(TEST_ADDRESS);
    let server = Server::new(blockchain);
    assert_eq!(server.get_config().get_node_addr(), "127.0.0.1:2001");
    assert!(server.get_mempool().is_empty());
    assert!(server.get_blocks_in_transit().is_empty());
    assert_eq!(server.get_peer_manager().get_connected_count().unwrap(), 0);
    assert_eq!(TRANSACTION_THRESHOLD, 10);
}

#[test]
fn a_node_greets_the_seed_when_it_starts() {
    let server = node("127.0.0.1:2002", new_chain(TEST_ADDRESS));
    let out = server.connect_to_network("127.0.0.1:2002");
    assert_eq!(out.len(), 1);
    assert_eq!(out[0].addr, CENTRAL_NODE);
    match &out[0].package {
        Package::Version {
            addr_from,
            version,
            best_height,
        } => {
            assert_eq!(addr_from, "127.0.0.1:2002");
            assert_eq!(*version, NODE_VERSION);
            assert_eq!(*best_height, 0);
        }
        other => panic!("unexpected {other:?}"),
    }
    assert!(server.connect_to_network(CENTRAL_NODE).is_empty());
}

#[test]
fn a_greeting_is_answered_by_the_heights() {
    let mut chain = new_chain(TEST_ADDRESS);
    chain.mine_block_with_fees(&[], TEST_ADDRESS).unwrap();
    let mut server = node("me:1", chain);
    let version = |height| Package::Version {
        addr_from: "peer:1".to_string(),
        version: 1,
        best_height: height,
    };
    let out = server.process_message(version(5)).unwrap();
    assert_eq!(out.len(), 1);
    assert_eq!(out[0].addr, "peer:1");
    assert!(matches!(&out[0].package, Package::GetBlocks { addr_from } if addr_from == "me:1"));
    let out = server.process_message(version(0)).unwrap();
    assert_eq!(out.len(), 1);
    assert!(matches!(
        &out[0].package,
        Package::Version { best_height: 1, version: 1, .. }
    ));
    assert!(server.process_message(version(1)).unwrap().is_empty());
}

#[test]
fn gossip_convergence_scenario() {
    let mut chain1 = new_chain(TEST_ADDRESS);
    let genesis = chain1.get_block(&chain1.get_tip_hash()).unwrap().unwrap();
    let mut chain2 = Blockchain::new_blockchain_with_path(
        "n2",
        ChainStore {
            tip: Some(genesis.get_hash().to_string()),
            blocks: vec![genesis],
            chainstate: Vec::new(),
        },
    )
    .unwrap();
    let first = chain1.mine_block_with_fees(&[], TEST_ADDRESS).unwrap();
    chain2.add_block(&first).unwrap();
    for _ in 0..3 {
        chain1.mine_block_with_fees(&[], TEST_ADDRESS).unwrap();
    }
    let mut n1 = node("n1:1", chain1);
    let mut n2 = node("n2:1", chain2);
    assert_eq!(n1.get_blockchain().get_best_height().unwrap(), 4);
    assert_eq!(n2.get_blockchain().get_best_height().unwrap(), 1);

    // N2 greets N1; N1 greets back with its height
    let greeting = vec![n2.send_version("n1:1", 1)];
    let reply = deliver(&mut n1, greeting);
    assert!(matches!(&reply[0].package, Package::Version { best_height: 4, .. }));
    // N2 asks for the block hashes
    let ask = deliver(&mut n2, reply);
    assert!(matches!(&ask[0].package, Package::GetBlocks { .. }));
    // N1 announces them
    let inv = deliver(&mut n1, ask);
    match &inv[0].package {
        Package::Inv {
            op_type, items, ..
        } => {
            assert_eq!(*op_type, OpType::Block);
            assert_eq!(items.len(), 5);
            // oldest first: the first block of the chain, then each child
            let mut newest_first = n1.get_blockchain().get_block_hashes();
            newest_first.reverse();
            assert_eq!(*items, newest_first);
            assert_eq!(items[4], n1.get_blockchain().get_tip_hash().as_bytes());
        }
        other => panic!("unexpected {other:?}"),
    }
    // N2 asks for each in order, N1 delivers
    let mut request = deliver(&mut n2, inv);
    let mut rounds = 0;
    while !request.is_empty() {
        assert!(matches!(&request[0].package, Package::GetData { op_type: OpType::Block, .. }));
        let block = deliver(&mut n1, request);
        assert!(matches!(&block[0].package, Package::Block { .. }));
        request = deliver(&mut n2, block);
        rounds += 1;
    }
    assert_eq!(rounds, 5);
    assert!(n2.get_blocks_in_transit().is_empty());
    assert_eq!(n2.get_blockchain().get_best_height().unwrap(), 4);
    assert_eq!(n1.get_blockchain().get_best_height().unwrap(), 4);
    assert_eq!(
        n2.get_blockchain().get_tip_hash(),
        n1.get_blockchain().get_tip_hash()
    );
    // the UTXO index of N2 was rebuilt after the last block
    assert_eq!(n2.get_blockchain().get_chainstate().len(), 5);
}

#[test]
fn data_is_sent_to_whom_asks_for_it() {
    let mut wallets = Wallets::new();
    let a1 = wallets.create_wallet().unwrap();
    let a2 = wallets.create_wallet().unwrap();
    let chain = new_chain(&a1);
    let mut set = UTXOSet::new(chain.clone());
    set.reindex();
    let tx = Transaction::new_utxo_transaction(&a1, &a2, 5, &set, &wallets, &FeeCalculator::new(), 0)
        .unwrap();
    let mut server = node("me:1", chain);

    // the transaction is asked for when it is announced, and only then
    let announce = |items: Vec<Vec<u8>>| Package::Inv {
        addr_from: "peer:1".to_string(),
        op_type: OpType::Tx,
        items,
    };
    let out = server
        .process_message(announce(vec![tx.get_id_bytes(), vec![1, 2]]))
        .unwrap();
    assert_eq!(out.len(), 2);
    assert!(matches!(&out[0].package, Package::GetData { op_type: OpType::Tx, id, .. } if id == tx.get_id()));

    let delivered = send_tx("me:1", "peer:1", &tx);
    assert_eq!(delivered.addr, "me:1");
    assert!(server.process_message(delivered.package).unwrap().is_empty());
    assert_eq!(server.get_mempool().len(), 1);
    let out = server
        .process_message(announce(vec![tx.get_id_bytes(), vec![1, 2]]))
        .unwrap();
    assert_eq!(out.len(), 1);
    assert!(matches!(&out[0].package, Package::GetData { id, .. } if id == &vec![1, 2]));

    // the transaction is sent to whom asks for it
    let out = server
        .process_message(Package::GetData {
            addr_from: "peer:2".to_string(),
            op_type: OpType::Tx,
            id: tx.get_id_bytes(),
        })
        .unwrap();
    assert_eq!(out.len(), 1);
    assert_eq!(out[0].addr, "peer:2");
    match &out[0].package {
        Package::Tx { transaction, addr_from } => {
            assert_eq!(addr_from, "me:1");
            assert_eq!(transaction, &tx.serialize().unwrap());
        }
        other => panic!("unexpected {other:?}"),
    }
    assert!(server
        .process_message(Package::GetData {
            addr_from: "peer:2".to_string(),
            op_type: OpType::Tx,
            id: vec![9],
        })
        .unwrap()
        .is_empty());
    // so is a block
    let tip = server.get_blockchain().get_tip_hash();
    let out = server
        .process_message(Package::GetData {
            addr_from: "peer:2".to_string(),
            op_type: OpType::Block,
            id: tip.as_bytes().to_vec(),
        })
        .unwrap();
    match &out[0].package {
        Package::Block { block, .. } => {
            assert_eq!(Block::deserialize(block).unwrap().get_hash(), tip);
        }
        other => panic!("unexpected {other:?}"),
    }
    assert!(server
        .process_message(Package::GetData {
            addr_from: "peer:2".to_string(),
            op_type: OpType::Block,
            id: b"unknown".to_vec(),
        })
        .unwrap()
        .is_empty());
}

#[test]
fn what_cannot_be_read_or_is_not_valid_is_dropped() {
    let mut wallets = Wallets::new();
    let a1 = wallets.create_wallet().unwrap();
    let chain = new_chain(TEST_ADDRESS);
    let other_chain = new_chain(&a1);
    let mut set = UTXOSet::new(other_chain);
    set.reindex();
    let foreign =
        Transaction::new_utxo_transaction(&a1, TEST_ADDRESS, 5, &set, &wallets, &FeeCalculator::new(), 0)
            .unwrap();
    let mut server = node("me:1", chain);
    assert!(matches!(
        server.process_message(Package::Tx {
            addr_from: "peer".to_string(),
            transaction: vec![0xff, 0xff],
        }),
        Err(BlockchainError::Network(_))
    ));
    assert!(matches!(
        server.process_message(Package::Tx {
            addr_from: "peer".to_string(),
            transaction: foreign.serialize().unwrap(),
        }),
        Err(BlockchainError::Transaction(_))
    ));
    assert!(server.get_mempool().is_empty());
    assert!(matches!(
        server.process_message(Package::Block {
            addr_from: "peer".to_string(),
            block: vec![0xff, 0xff],
        }),
        Err(BlockchainError::Network(_))
    ));
    assert_eq!(server.get_blockchain().get_best_height().unwrap(), 0);
    assert!(matches!(server.try_mine_block(), Err(BlockchainError::Network(_))));
    assert!(matches!(
        server.try_mine_block_with(vec![1u8; 16], 1_000),
        Err(BlockchainError::Network(_))
    ));

    // a block whose proof of work fails is dropped, not stored
    let tip = server.get_blockchain().get_tip_hash();
    let coinbase = Transaction::new_coinbase_tx(TEST_ADDRESS).unwrap();
    let mined = Block::new_block_at(tip.clone(), &[coinbase.clone()], 1, 12, 5_000).unwrap();
    let tampered = Block::from_parts(
        mined.get_timestamp(),
        mined.get_pre_block_hash(),
        mined.get_hash().to_string(),
        mined.get_transactions().to_vec(),
        mined.get_nonce() ^ 1,
        mined.get_height(),
        mined.get_difficulty(),
        mined.get_merkle_root().to_vec(),
    );
    assert!(matches!(
        server.process_message(Package::Block {
            addr_from: "peer".to_string(),
            block: tampered.serialize().unwrap(),
        }),
        Err(BlockchainError::InvalidBlock(_))
    ));
    assert!(!server.get_blockchain().block_exists(mined.get_hash()).unwrap());
    // so is a block whose parent the store does not hold
    let orphan = Block::new_block_at("unknown".to_string(), &[coinbase.clone()], 1, 1, 5_000).unwrap();
    assert!(matches!(
        server.process_message(Package::Block {
            addr_from: "peer".to_string(),
            block: orphan.serialize().unwrap(),
        }),
        Err(BlockchainError::InvalidBlock(_))
    ));
    // and one whose transaction is not valid on the chain
    let spending = Block::new_block_at(tip.clone(), &[coinbase, foreign], 1, 1, 5_000).unwrap();
    assert!(matches!(
        server.process_message(Package::Block {
            addr_from: "peer".to_string(),
            block: spending.serialize().unwrap(),
        }),
        Err(BlockchainError::InvalidBlock(_))
    ));
    assert_eq!(server.get_blockchain().get_best_height().unwrap(), 0);
    assert_eq!(server.get_blockchain().get_tip_hash(), tip);
    assert_eq!(server.get_blockchain().clone().into_store().blocks.len(), 1);
    // the block itself is taken, and taken again without a change
    for _ in 0..2 {
        server
            .process_message(Package::Block {
                addr_from: "peer".to_string(),
                block: mined.serialize().unwrap(),
            })
            .unwrap();
        assert_eq!(server.get_blockchain().get_tip_hash(), mined.get_hash());
        assert_eq!(server.get_blockchain().clone().into_store().blocks.len(), 2);
    }
}

#[test]
fn a_miner_mines_when_the_mempool_is_full() {
    let mut wallets = Wallets::new();
    let a1 = wallets.create_wallet().unwrap();
    let chain = new_chain(&a1);
    let mut config = Config::new();
    config.set_mining_addr(a1.clone());
    let mut server = Server::with_config(chain, config);
    for i in 0..10u8 {
        let coinbase = Transaction::new_coinbase_tx_with_extranonce(&a1, 1, vec![i]).unwrap();
        let out = server
            .process_message(Package::Tx {
                addr_from: "peer".to_string(),
                transaction: coinbase.serialize().unwrap(),
            })
            .unwrap();
        assert!(out.is_empty());
        if i < 9 {
            assert_eq!(server.get_mempool().len(), i as usize + 1);
            assert_eq!(server.get_blockchain().get_best_height().unwrap(), 0);
        }
    }
    assert_eq!(server.get_blockchain().get_best_height().unwrap(), 1);
    assert!(server.get_mempool().is_empty());
    let tip = server.get_blockchain().get_tip_hash();
    let block = server.get_blockchain().get_block(&tip).unwrap().unwrap();
    assert_eq!(block.get_transactions().len(), 11);
    assert!(block.get_transactions()[0].is_coinbase());
    assert_eq!(server.get_blockchain().get_chainstate().len(), 12);
    let chain = server.into_blockchain();
    assert_eq!(chain.get_best_height().unwrap(), 1);
}

#[test]
fn command_line_values_are_parsed() {
    assert_eq!("low".parse::<FeePriorityArg>().unwrap(), FeePriorityArg::Low);
    assert_eq!("Normal".parse::<FeePriorityArg>().unwrap(), FeePriorityArg::Normal);
    assert_eq!("HIGH".parse::<FeePriorityArg>().unwrap(), FeePriorityArg::High);
    assert_eq!("urgent".parse::<FeePriorityArg>().unwrap(), FeePriorityArg::Urgent);
    assert_eq!(
        "soon".parse::<FeePriorityArg>().unwrap_err(),
        "Invalid priority: soon. Valid options: low, normal, high, urgent"
    );
    assert_eq!(FeePriorityArg::High.to_priority(), FeePriority::High);
    assert_eq!(FeePriorityArg::Urgent.to_string(), "urgent");
    assert_eq!("dynamic".parse::<FeeModeArg>().unwrap(), FeeModeArg::Dynamic);
    assert_eq!("Dynamic".parse::<FeeModeArg>().unwrap(), FeeModeArg::Dynamic);
    assert_eq!("17".parse::<FeeModeArg>().unwrap(), FeeModeArg::Fixed(17));
    assert_eq!(
        "18446744073709551615".parse::<FeeModeArg>().unwrap(),
        FeeModeArg::Fixed(u64::MAX)
    );
    assert!("18446744073709551616".parse::<FeeModeArg>().is_err());
    assert_eq!("+17".parse::<FeeModeArg>().unwrap(), FeeModeArg::Fixed(17));
    assert_eq!("007".parse::<FeeModeArg>().unwrap(), FeeModeArg::Fixed(7));
    for text in ["", "+", "++1", "1 ", " 1", "1_000", "0x10", "1.0", "١"] {
        assert!(text.parse::<FeeModeArg>().is_err(), "{text:?}");
    }
    assert_eq!(
        "-1".parse::<FeeModeArg>().unwrap_err(),
        "Invalid fee mode: -1. Use 'dynamic' or a fixed amount (e.g., '1')"
    );
}

#[test]
fn a_fee_mode_argument_names_a_fee_mode() {
    let mut calculator = FeeCalculator::new();
    calculator
        .switch_fee_mode(FeeModeArg::Fixed(7).to_fee_mode())
        .unwrap();
    assert!(!calculator.is_dynamic_enabled());
    assert_eq!(calculator.calculate_fee(100, None, 0), 7);
    calculator
        .switch_fee_mode(FeeModeArg::Dynamic.to_fee_mode())
        .unwrap();
    assert!(calculator.is_dynamic_enabled());
    assert_eq!(calculator.estimate_fee(FeePriority::Normal, 0), 1);
}

#[test]
fn mining_from_the_mempool_with_given_values() {
    let mut wallets = Wallets::new();
    let a1 = wallets.create_wallet().unwrap();
    let chain =
        Blockchain::create_blockchain_with(&a1, "test", empty_store(), vec![1u8; 16], 1_000).unwrap();
    let mut config = Config::new();
    config.set_mining_addr(a1.clone());
    let mut server = Server::with_config(chain.clone(), config);
    let mut twin = chain.clone();
    let mut pool = Vec::new();
    for i in 0..10u8 {
        let coinbase = Transaction::new_coinbase_tx_with_extranonce(&a1, 1, vec![i]).unwrap();
        pool.push(coinbase.clone());
        let out = server
            .handle_tx_message_with(coinbase.serialize().unwrap(), vec![9u8; 16], 2_000)
            .unwrap();
        assert!(out.is_empty());
    }
    // the block is the one that mining the pool with these values gives
    let block = twin
        .mine_block_with(&pool, Some(&a1), vec![9u8; 16], 2_000)
        .unwrap();
    assert_eq!(server.get_blockchain().get_tip_hash(), block.get_hash());
    assert_eq!(server.get_blockchain().get_best_height().unwrap(), 1);
    assert!(server.get_mempool().is_empty());
    assert_eq!(server.get_blockchain().get_chainstate().len(), 12);
    // an empty pool is mined as well: the coinbase alone
    server.try_mine_block_with(vec![8u8; 16], 3_000).unwrap();
    assert_eq!(server.get_blockchain().get_best_height().unwrap(), 2);
    // connections are not touched by any of this
    assert!(server.accept_connection("peer:1".to_string()));
    server.try_mine_block_with(vec![7u8; 16], 4_000).unwrap();
    assert_eq!(
        server.get_peer_manager().get_connected_addresses().unwrap(),
        vec!["peer:1".to_string()]
    );
}
