//! Helpers for trying a chain out.

pub mod test_utils;

pub use test_utils::{
    create_fork_scenario, create_test_blockchain, create_test_network, create_test_transaction,
    create_test_wallets, mine_test_block, validate_blockchain_integrity, TestConfig,
};
