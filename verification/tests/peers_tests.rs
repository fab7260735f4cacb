use architect_chain::config::Config;
use architect_chain::error::BlockchainError;
use architect_chain::network::dns_seeding::DnsSeeder;
use architect_chain::network::node::{Node, Nodes};
use architect_chain::network::simple_peer_manager::SimplePeerManager;
use architect_chain::storage::memory_pool::{BlockInTransit, MemoryPool};
use architect_chain::chain::Transaction;

const TEST_ADDRESS: &str = "1A1zP1eP5QGefi2DMPTfTL5SLmv7DivfNa";

#[test]
fn test_dns_seeder_creation() {
    let seeder = DnsSeeder::new(2001);
    assert_eq!(seeder.get_default_port(), 2001);
    assert!(!seeder.get_seeds().is_empty());
}

#[test]
fn test_custom_seeds() {
    let custom_seeds = vec![
        "custom1.example.com".to_string(),
        "custom2.example.com".to_string(),
    ];
    let seeder = DnsSeeder::with_seeds(custom_seeds.clone(), 8333);
    assert_eq!(seeder.get_seeds(), &custom_seeds);
}

#[test]
fn test_development_mode_detection() {
    let seeder = DnsSeeder::development();
    assert!(seeder.is_development_mode());
}

#[test]
fn test_add_remove_seeds() {
    let mut seeder = DnsSeeder::new(2001);
    let initial_count = seeder.get_seeds().len();
    seeder.add_seed("new-seed.example.com".to_string());
    assert_eq!(seeder.get_seeds().len(), initial_count + 1);
    seeder.remove_seed("new-seed.example.com");
    assert_eq!(seeder.get_seeds().len(), initial_count);
}

#[test]
fn seeds_are_kept_once_and_limits_can_be_set() {
    let mut seeder = DnsSeeder::with_seeds(vec!["a.example".to_string()], 1)
        .with_timeout(3)
        .with_max_addresses(7);
    assert_eq!(seeder.get_timeout_secs(), 3);
    assert_eq!(seeder.get_max_addresses(), 7);
    assert!(!seeder.is_development_mode());
    seeder.add_seed("a.example".to_string());
    assert_eq!(seeder.get_seeds().len(), 1);
    seeder.add_seed("my.localhost.example".to_string());
    assert!(seeder.is_development_mode());
    seeder.remove_seed("a.example");
    assert_eq!(seeder.get_seeds(), &["my.localhost.example".to_string()]);
    assert_eq!(DnsSeeder::mainnet().get_default_port(), 2001);
    assert!(DnsSeeder::mainnet().is_development_mode());
    assert_eq!(DnsSeeder::testnet().get_default_port(), 12001);
    assert_eq!(DnsSeeder::testnet().get_seeds().len(), 2);
    assert_eq!(
        DnsSeeder::development().get_seeds(),
        &["localhost".to_string(), "127.0.0.1".to_string()]
    );
}

#[test]
fn test_simple_peer_manager_creation() {
    let manager = SimplePeerManager::new(8, 2001);
    assert_eq!(manager.get_connected_count().unwrap(), 0);
}

#[test]
fn test_connection_tracking() {
    let mut manager = SimplePeerManager::new(8, 2001);
    let addr = "127.0.0.1:2001".to_string();
    manager.record_connection(addr.clone()).unwrap();
    assert_eq!(manager.get_connected_count().unwrap(), 1);
    manager.record_disconnection(&addr).unwrap();
    assert_eq!(manager.get_connected_count().unwrap(), 0);
}

#[test]
fn test_connection_limits() {
    let mut manager = SimplePeerManager::new(2, 2001);
    let addr1 = "127.0.0.1:2001".to_string();
    let addr2 = "127.0.0.1:2002".to_string();
    assert!(manager.should_accept_connection().unwrap());
    manager.record_connection(addr1).unwrap();
    assert!(manager.should_accept_connection().unwrap());
    manager.record_connection(addr2).unwrap();
    assert!(!manager.should_accept_connection().unwrap());
}

#[test]
fn peers_to_connect_are_the_first_that_are_new() {
    let mut manager = SimplePeerManager::new(3, 2001);
    manager.record_connection("a:1".to_string()).unwrap();
    manager.record_connection("a:1".to_string()).unwrap();
    assert_eq!(manager.get_connected_addresses().unwrap(), vec!["a:1".to_string()]);
    let found = vec![
        "a:1".to_string(),
        "b:1".to_string(),
        "c:1".to_string(),
        "d:1".to_string(),
    ];
    assert_eq!(
        manager.peers_to_connect_among(&found),
        vec!["b:1".to_string(), "c:1".to_string()]
    );
    manager.record_connection("b:1".to_string()).unwrap();
    manager.record_connection("c:1".to_string()).unwrap();
    assert!(manager.peers_to_connect_among(&found).is_empty());
    assert_eq!(SimplePeerManager::for_development().get_seeder().get_seeds().len(), 2);
}

#[test]
fn nodes_are_known_by_address() {
    let mut nodes = Nodes::new();
    assert!(nodes.is_empty());
    assert!(nodes.first().is_none());
    nodes.add_node("127.0.0.1:2001".to_string());
    nodes.add_node("127.0.0.1:2002".to_string());
    nodes.add_node("127.0.0.1:2001".to_string());
    assert_eq!(nodes.len(), 2);
    assert!(nodes.node_is_known("127.0.0.1:2002"));
    assert!(!nodes.node_is_known("127.0.0.1:2003"));
    assert_eq!(nodes.first().unwrap().get_addr(), "127.0.0.1:2001");
    nodes.evict_node("127.0.0.1:2001");
    nodes.evict_node("127.0.0.1:2009");
    let left: Vec<String> = nodes.get_nodes().iter().map(|n| n.get_addr()).collect();
    assert_eq!(left, vec!["127.0.0.1:2002".to_string()]);
    assert_eq!(Node::new("x".to_string()).clone().get_addr(), "x");
}

#[test]
fn settings_are_read_and_written() {
    let mut config = Config::new();
    assert_eq!(config.get_node_addr(), "127.0.0.1:2001");
    assert_eq!(config.extract_node_id_from_addr(), "2001");
    assert!(!config.is_miner());
    assert!(config.get_mining_addr().is_none());
    assert!(config.get_node_id().is_none());
    config.set_node_addr("10.0.0.1:3000".to_string());
    assert_eq!(config.extract_node_id_from_addr(), "3000");
    config.set_node_addr("no-colon".to_string());
    assert_eq!(config.extract_node_id_from_addr(), "no-colon");
    config.set_node_addr("ends:".to_string());
    assert_eq!(config.extract_node_id_from_addr(), "");
    config.set_node_addr("[::1]:9".to_string());
    assert_eq!(config.extract_node_id_from_addr(), "9");
    config.set_mining_addr("miner".to_string());
    assert!(config.is_miner());
    assert_eq!(config.get_mining_addr().unwrap(), "miner");
    config.set_node_id("7".to_string());
    assert_eq!(config.get_node_id().unwrap(), "7");
    let from_env = Config::from_environment(Some("h:1".to_string()), Some("n".to_string()));
    assert_eq!(from_env.get_node_addr(), "h:1");
    assert_eq!(from_env.get_node_id().unwrap(), "n");
    assert_eq!(Config::from_environment(None, None).get_node_addr(), "127.0.0.1:2001");
}

#[test]
fn the_mempool_holds_transactions_by_identifier() {
    let mut pool = MemoryPool::new();
    assert!(pool.is_empty());
    let tx1 = Transaction::new_coinbase_tx(TEST_ADDRESS).unwrap();
    let tx2 = Transaction::new_coinbase_tx(TEST_ADDRESS).unwrap();
    let id1 = data_encoding::HEXLOWER.encode(tx1.get_id());
    let id2 = data_encoding::HEXLOWER.encode(tx2.get_id());
    pool.add(tx1.clone());
    pool.add(tx2.clone());
    pool.add(tx1.clone());
    assert_eq!(pool.len(), 2);
    assert!(pool.contains(&id1));
    assert!(!pool.contains("ab"));
    assert_eq!(pool.get(&id2).unwrap().get_id(), tx2.get_id());
    assert!(pool.get("ab").is_none());
    let all: Vec<Vec<u8>> = pool.get_all().iter().map(|t| t.get_id_bytes()).collect();
    assert_eq!(all, vec![tx1.get_id_bytes(), tx2.get_id_bytes()]);
    pool.remove(&id1);
    pool.remove(&id1);
    assert_eq!(pool.len(), 1);
    assert!(!pool.contains(&id1));
    pool.clear();
    assert!(pool.is_empty());
}

#[test]
fn blocks_in_transit_are_a_queue() {
    let mut transit = BlockInTransit::new();
    assert!(transit.is_empty());
    assert!(transit.first().is_none());
    transit.add_blocks(&[vec![1], vec![2], vec![1]]);
    transit.add_blocks(&[vec![3]]);
    assert_eq!(transit.len(), 4);
    assert_eq!(transit.first().unwrap(), vec![1]);
    transit.remove(&[1]);
    assert_eq!(transit.len(), 3);
    assert_eq!(transit.first().unwrap(), vec![2]);
    transit.remove(&[9]);
    assert_eq!(transit.len(), 3);
    transit.remove(&[3]);
    transit.remove(&[2]);
    assert_eq!(transit.first().unwrap(), vec![1]);
    transit.clear();
    assert!(transit.is_empty());
}

#[test]
fn test_simulated_dns_resolution() {
    let seeder = DnsSeeder::development();
    let peers = seeder.simulate_dns_resolution("localhost", 7).unwrap();
    assert!(!peers.is_empty());
    for peer in &peers {
        assert_eq!(peer.source, "localhost");
    }
    let addresses: Vec<&str> = peers.iter().map(|p| p.address.as_str()).collect();
    assert_eq!(
        addresses,
        vec![
            "127.0.0.1:2001",
            "127.0.0.1:2002",
            "127.0.0.1:2003",
            "192.168.1.100:2001",
            "192.168.1.101:2001",
        ]
    );
    assert!(peers.iter().all(|p| p.discovered_at == 7));
}

#[test]
fn test_peer_discovery() {
    let seeder = DnsSeeder::development();
    let peers = seeder.discover_peers(&[], 0).unwrap();
    assert!(!peers.is_empty());
    // two seeds name five peers each
    assert_eq!(peers.len(), 10);
}

#[test]
fn test_discovered_peer_equality() {
    let seeder = DnsSeeder::with_seeds(vec!["one.example.com".to_string()], 2001);
    let lookups = vec![Some(vec![
        "127.0.0.1:2001".to_string(),
        "127.0.0.1:2001".to_string(),
    ])];
    let peers = seeder.discover_peers(&lookups, 5).unwrap();
    // peers with the same address, source and time are one peer
    assert_eq!(peers.len(), 1);
    assert_eq!(peers[0].address, "127.0.0.1:2001");
    assert_eq!(peers[0].source, "one.example.com");
    assert_eq!(peers[0].discovered_at, 5);
}

#[test]
fn discovery_takes_what_the_lookups_gave() {
    let seeds = vec![
        "one.example.com".to_string(),
        "two.example.com".to_string(),
        "three.example.com".to_string(),
    ];
    let seeder = DnsSeeder::with_seeds(seeds, 8333).with_max_addresses(3);
    assert!(!seeder.is_development_mode());
    // no lookup answered
    assert!(matches!(
        seeder.discover_peers(&[None, None, None], 1),
        Err(BlockchainError::Network(_))
    ));
    assert!(matches!(
        seeder.discover_peers(&[], 1),
        Err(BlockchainError::Network(_))
    ));
    assert!(matches!(
        seeder.resolve_seed("one.example.com", None, 1),
        Err(BlockchainError::Network(_))
    ));
    // a lookup that answers with nothing is a success
    assert!(seeder
        .discover_peers(&[None, Some(vec![]), None], 1)
        .unwrap()
        .is_empty());
    let lookups = vec![
        Some(vec!["10.0.0.1:8333".to_string(), "10.0.0.2:8333".to_string()]),
        None,
        Some(vec!["10.0.0.3:8333".to_string(), "10.0.0.4:8333".to_string()]),
    ];
    let peers = seeder.discover_peers(&lookups, 9).unwrap();
    let found: Vec<(&str, &str)> = peers
        .iter()
        .map(|p| (p.address.as_str(), p.source.as_str()))
        .collect();
    assert_eq!(
        found,
        vec![
            ("10.0.0.1:8333", "one.example.com"),
            ("10.0.0.2:8333", "one.example.com"),
            ("10.0.0.3:8333", "three.example.com"),
        ]
    );
    let kept = seeder.filter_reachable_peers(peers, &[true, false]);
    assert_eq!(kept.len(), 1);
    assert_eq!(kept[0].address, "10.0.0.1:8333");
}

#[test]
fn peers_to_connect_come_from_discovery() {
    let mut manager = SimplePeerManager::for_development();
    manager.record_connection("127.0.0.1:2002".to_string()).unwrap();
    let peers = manager.get_peers_to_connect(&[], 3).unwrap();
    assert_eq!(
        peers,
        vec![
            "127.0.0.1:2001".to_string(),
            "127.0.0.1:2003".to_string(),
            "192.168.1.100:2001".to_string(),
            "192.168.1.101:2001".to_string(),
            "127.0.0.1:2001".to_string(),
            "127.0.0.1:2003".to_string(),
            "192.168.1.100:2001".to_string(),
        ]
    );
    let mut full = SimplePeerManager::new(1, 8333);
    full.record_connection("a:1".to_string()).unwrap();
    assert!(full.get_peers_to_connect(&[], 3).unwrap().is_empty());
    let lonely = SimplePeerManager::new(1, 8333);
    // the default seeds are names of a node under development
    assert_eq!(
        lonely.get_peers_to_connect(&[], 3).unwrap(),
        vec!["127.0.0.1:2001".to_string()]
    );
}
