//! Peers, seeds and the decisions of the gossip protocol.

pub mod dns_seeding;
pub mod node;
pub mod server;
pub mod simple_peer_manager;

pub use crate::storage::BlockInTransit;
pub use dns_seeding::{DiscoveredPeer, DnsSeeder};
pub use node::{Node, Nodes};
pub use server::{send_tx, Server, CENTRAL_NODE};
pub use simple_peer_manager::SimplePeerManager;
