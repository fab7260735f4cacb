//! An educational UTXO blockchain kernel: transactions, blocks, proof of work,
//! difficulty retargeting, the UTXO index, the mempool and the gossip protocol's
//! decisions, with their contracts.

pub mod chain;
pub mod cli;
pub mod config;
pub mod error;
pub mod network;
pub mod storage;
pub mod testnet;
pub mod utils;
pub mod wallet;
