//! The mempool, the blocks in transit, the UTXO index and key protection.

pub mod encrypted;
pub mod memory_pool;
pub mod reindex_laws;
pub mod utxo_laws;
pub mod utxo_set;

pub use memory_pool::{BlockInTransit, MemoryPool};
pub use utxo_set::UTXOSet;
