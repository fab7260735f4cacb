//! The decisions of the gossip protocol: what a node does with a message and
//! what it sends in return. Sending and receiving are left to the caller.

use crate::chain::block::{Block, BlockModel};
use crate::chain::blockchain::{
    spec_add_block, spec_find_utxo, spec_get_block, Blockchain, ChainModel,
};
use crate::chain::merkle::byte_views;
use crate::chain::transaction::{spec_verify, Transaction, TransactionModel};
use crate::config::settings::{Config, SettingsModel};
use crate::error::{owned, BlockchainError};
use crate::network::simple_peer_manager::SimplePeerManager;
use crate::storage::memory_pool::{
    spec_pool_get, spec_pool_put, BlockInTransit, EntryModel, MemoryPool,
};
use crate::utils::crypto::{hex_encode, spec_hex_encode};
use crate::utils::lists::spec_without_first;
use crate::chain::blockchain::text_eq;
use vstd::prelude::*;
use vstd::string::*;

verus! {

/// The version of the protocol that this node speaks.
pub const NODE_VERSION: usize = 1;

/// The address of the seed node.
pub const CENTRAL_NODE: &'static str = "127.0.0.1:2001";

/// The size of the mempool from which a miner mines a block.
pub const TRANSACTION_THRESHOLD: usize = 10;

/// What an identifier names: a transaction or a block.
#[derive(Debug, Clone, Copy, PartialEq, Eq, Structural)]
pub enum OpType {
    Tx,
    Block,
}

/// A message of the protocol.
#[derive(Debug)]
pub enum Package {
    /// A block, encoded.
    Block { addr_from: String, block: Vec<u8> },
    /// A request for the hashes of all blocks.
    GetBlocks { addr_from: String },
    /// A request for one block or transaction.
    GetData { addr_from: String, op_type: OpType, id: Vec<u8> },
    /// An announcement of blocks or transactions.
    Inv { addr_from: String, op_type: OpType, items: Vec<Vec<u8>> },
    /// A transaction, encoded.
    Tx { addr_from: String, transaction: Vec<u8> },
    /// A greeting with the height of the sender's tip.
    Version { addr_from: String, version: usize, best_height: usize },
}

/// What a message is.
pub enum PackageModel {
    Block { addr_from: Seq<char>, block: Seq<u8> },
    GetBlocks { addr_from: Seq<char> },
    GetData { addr_from: Seq<char>, op_type: OpType, id: Seq<u8> },
    Inv { addr_from: Seq<char>, op_type: OpType, items: Seq<Seq<u8>> },
    Tx { addr_from: Seq<char>, transaction: Seq<u8> },
    Version { addr_from: Seq<char>, version: usize, best_height: usize },
}

impl View for Package {
    type V = PackageModel;

    open spec fn view(&self) -> PackageModel {
        match self {
            Package::Block { addr_from, block } => PackageModel::Block {
                addr_from: addr_from@,
                block: block@,
            },
            Package::GetBlocks { addr_from } => PackageModel::GetBlocks { addr_from: addr_from@ },
            Package::GetData { addr_from, op_type, id } => PackageModel::GetData {
                addr_from: addr_from@,
                op_type: *op_type,
                id: id@,
            },
            Package::Inv { addr_from, op_type, items } => PackageModel::Inv {
                addr_from: addr_from@,
                op_type: *op_type,
                items: byte_views(items@),
            },
            Package::Tx { addr_from, transaction } => PackageModel::Tx {
                addr_from: addr_from@,
                transaction: transaction@,
            },
            Package::Version { addr_from, version, best_height } => PackageModel::Version {
                addr_from: addr_from@,
                version: *version,
                best_height: *best_height,
            },
        }
    }
}

/// A message to send, and the address to send it to.
#[derive(Debug)]
pub struct Outgoing {
    pub addr: String,
    pub package: Package,
}

/// What a message to send is.
pub struct OutgoingModel {
    pub addr: Seq<char>,
    pub package: PackageModel,
}

impl View for Outgoing {
    type V = OutgoingModel;

    open spec fn view(&self) -> OutgoingModel {
        OutgoingModel { addr: self.addr@, package: self.package@ }
    }
}

/// The messages of a list.
pub open spec fn outgoing_models(list: Seq<Outgoing>) -> Seq<OutgoingModel> {
    list.map_values(|o: Outgoing| o@)
}

/// What a node is: its chain, its mempool, the blocks it waits for and its
/// settings.
pub struct ServerModel {
    pub chain: ChainModel,
    pub mempool: Seq<EntryModel>,
    pub in_transit: Seq<Seq<u8>>,
    pub settings: SettingsModel,
}

/// A node of the network.
pub struct Server {
    blockchain: Blockchain,
    mempool: MemoryPool,
    blocks_in_transit: BlockInTransit,
    config: Config,
    peer_manager: SimplePeerManager,
}

impl View for Server {
    type V = ServerModel;

    closed spec fn view(&self) -> ServerModel {
        ServerModel {
            chain: self.blockchain@,
            mempool: self.mempool@,
            in_transit: self.blocks_in_transit@,
            settings: self.config@,
        }
    }
}

/// The answer to a greeting: a request for the block hashes where the peer
/// is higher, a greeting in return where this node is higher, nothing where
/// the heights agree or the store does not hold the tip.
pub open spec fn spec_version_reply(state: ServerModel, addr_from: Seq<char>, best_height: usize)
    -> Seq<OutgoingModel> {
    match state.chain.best_height() {
        Some(local) => if local < best_height {
            seq![
                OutgoingModel {
                    addr: addr_from,
                    package: PackageModel::GetBlocks { addr_from: state.settings.node_addr },
                },
            ]
        } else if local > best_height {
            seq![
                OutgoingModel {
                    addr: addr_from,
                    package: PackageModel::Version {
                        addr_from: state.settings.node_addr,
                        version: NODE_VERSION,
                        best_height: local,
                    },
                },
            ]
        } else {
            Seq::empty()
        },
        None => Seq::empty(),
    }
}

/// A block could be and was mined on `before` from the transactions, and
/// `after` is the chain with that block as its tip, whatever its UTXO index
/// holds.
pub open spec fn spec_mined_and_indexed(
    before: ChainModel,
    after: ChainModel,
    block: BlockModel,
    transactions: Seq<TransactionModel>,
    miner: Option<Seq<char>>,
    extranonce: Seq<u8>,
    timestamp: i64,
) -> bool {
    crate::chain::blockchain::spec_can_mine(
        before,
        transactions,
        miner,
        extranonce,
    ) && crate::chain::blockchain::spec_mined_on(
        before,
        ChainModel { chainstate: before.chainstate, ..after },
        block,
        transactions,
        miner,
        extranonce,
        timestamp,
    )
}

/// The transactions of a mempool, in order.
pub open spec fn spec_pool_transactions(entries: Seq<EntryModel>) -> Seq<TransactionModel> {
    entries.map_values(|e: EntryModel| e.transaction)
}

/// The requests for the transactions of `items` that the mempool does not
/// hold, in order.
pub open spec fn spec_transaction_requests(
    state: ServerModel,
    addr_from: Seq<char>,
    items: Seq<Seq<u8>>,
) -> Seq<OutgoingModel>
    decreases items.len(),
{
    if items.len() == 0 {
        Seq::empty()
    } else {
        let before = spec_transaction_requests(state, addr_from, items.drop_last());
        if spec_pool_get(state.mempool, spec_hex_encode(items.last())) is None {
            before.push(
                OutgoingModel {
                    addr: addr_from,
                    package: PackageModel::GetData {
                        addr_from: state.settings.node_addr,
                        op_type: OpType::Tx,
                        id: items.last(),
                    },
                },
            )
        } else {
            before
        }
    }
}

/// The mempool after the transactions have left it, each under its
/// identifier in hexadecimal.
pub open spec fn spec_pool_without(entries: Seq<EntryModel>, transactions: Seq<TransactionModel>)
    -> Seq<EntryModel>
    decreases transactions.len(),
{
    if transactions.len() == 0 {
        entries
    } else {
        crate::storage::memory_pool::spec_pool_remove(
            spec_pool_without(entries, transactions.drop_last()),
            spec_hex_encode(transactions.last().id),
        )
    }
}

/// What mining from the mempool with an extranonce and a timestamp does.
/// It succeeds exactly where a mining address is set and a block can be
/// mined from the transactions of the mempool; else the result is `Network`
/// and nothing changes. On success the chain holds the mined block as its
/// tip, the UTXO index is rebuilt, and the transactions have left the
/// mempool.
pub open spec fn spec_mining_tried_with(
    before: ServerModel,
    after: ServerModel,
    extranonce: Seq<u8>,
    timestamp: i64,
    out: Result<(), BlockchainError>,
) -> bool {
    let pool = spec_pool_transactions(before.mempool);
    let miner = before.settings.mining_addr;
    let block = crate::chain::blockchain::spec_next_block(
        before.chain,
        pool,
        miner,
        extranonce,
        timestamp,
    );
    let mined = ChainModel {
        tip: block.hash,
        blocks: crate::chain::blockchain::spec_put_block(before.chain.blocks, block),
        chainstate: before.chain.chainstate,
    };
    &&& after.in_transit == before.in_transit
    &&& after.settings == before.settings
    &&& out is Ok <==> miner is Some && crate::chain::blockchain::spec_can_mine_at(
        before.chain,
        pool,
        miner,
        extranonce,
        timestamp,
    )
    &&& out is Err ==> out->Err_0 is Network && after == before
    &&& out is Ok ==> after.chain == (ChainModel {
        chainstate: spec_find_utxo(mined.main_chain()),
        ..mined
    }) && after.mempool == spec_pool_without(before.mempool, pool)
        && crate::chain::blockchain::spec_mined_on(
        before.chain,
        mined,
        block,
        pool,
        miner,
        extranonce,
        timestamp,
    )
}

/// What `try_mine_block` does. Without a mining address, and where mining
/// fails, the result is `Network` and nothing changes; mining fails where a
/// transaction of the mempool is not valid, where two of them spend one
/// output, and where the store does not hold the tip. Else a block is mined
/// from the transactions of the mempool for the mining address, the UTXO
/// index is rebuilt, and the transactions leave the mempool.
pub open spec fn spec_mining_tried(
    before: ServerModel,
    after: ServerModel,
    out: Result<(), BlockchainError>,
) -> bool {
    &&& after.in_transit == before.in_transit
    &&& after.settings == before.settings
    &&& before.settings.mining_addr is None ==> out is Err
    &&& !crate::chain::blockchain::spec_all_verify(
        before.chain.main_chain(),
        spec_pool_transactions(before.mempool),
    ) || !crate::chain::blockchain::spec_no_double_spend(spec_pool_transactions(before.mempool))
        || before.chain.best_height() is None ==> out is Err
    &&& out is Err ==> out->Err_0 is Network && after == before
    &&& out is Ok ==> {
        &&& after.chain.chainstate == spec_find_utxo(after.chain.main_chain())
        &&& after.mempool == spec_pool_without(
            before.mempool,
            spec_pool_transactions(before.mempool),
        )
        &&& exists|block: BlockModel, extranonce: Seq<u8>, timestamp: i64|
            #[trigger] spec_mined_and_indexed(
                before.chain,
                after.chain,
                block,
                spec_pool_transactions(before.mempool),
                before.settings.mining_addr,
                extranonce,
                timestamp,
            )
    }
}

/// Whether a block that came is taken: one that the store holds already,
/// which changes nothing there, or one that passes the check of blocks from
/// peers.
pub open spec fn spec_block_taken(chain: ChainModel, block: BlockModel) -> bool {
    spec_get_block(chain.blocks, block.hash) is Some
        || crate::chain::blockchain::spec_valid_for_sync(chain, block)
}

/// What a node does with a block that came. `Network` where the bytes hold
/// no block; `InvalidBlock` for a block that the store does not hold and
/// that fails the check of blocks from peers: it is dropped; `Network`
/// where the store does not hold the tip. In each of these nothing changes.
/// Else the block is taken into the store; where blocks are waited for, the
/// first of them is asked for and leaves the queue; where none is, the UTXO
/// index is rebuilt.
pub open spec fn spec_block_handled(
    before: ServerModel,
    after: ServerModel,
    addr_from: Seq<char>,
    block_data: Seq<u8>,
    out: Result<Vec<Outgoing>, BlockchainError>,
) -> bool {
    &&& after.mempool == before.mempool
    &&& after.settings == before.settings
    &&& match BlockModel::parse(block_data) {
        None => out is Err && out->Err_0 is Network && after == before,
        Some((block, rest)) => if !spec_block_taken(before.chain, block) {
            out is Err && out->Err_0 is InvalidBlock && after == before
        } else {
            match spec_add_block(before.chain, block) {
                None => out is Err && out->Err_0 is Network && after == before,
                Some(chain) => out is Ok && (if before.in_transit.len() > 0 {
                    &&& after.chain == chain
                    &&& after.in_transit == spec_without_first(
                        before.in_transit,
                        before.in_transit[0],
                    )
                    &&& outgoing_models(out->Ok_0@) == seq![
                        OutgoingModel {
                            addr: addr_from,
                            package: PackageModel::GetData {
                                addr_from: before.settings.node_addr,
                                op_type: OpType::Block,
                                id: before.in_transit[0],
                            },
                        },
                    ]
                } else {
                    &&& after.chain == (ChainModel {
                        chainstate: spec_find_utxo(chain.main_chain()),
                        ..chain
                    })
                    &&& after.in_transit == before.in_transit
                    &&& out->Ok_0@.len() == 0
                }),
            }
        },
    }
}

/// The hashes of the blocks of a chain, oldest first, where the chain is
/// given newest first: a peer that takes the blocks in this order knows the
/// parent of each before the block comes.
pub open spec fn spec_hashes_oldest_first(chain: Seq<BlockModel>) -> Seq<Seq<u8>> {
    Seq::new(chain.len(), |k: int| vstd::utf8::encode_utf8(chain[chain.len() - 1 - k].hash))
}

/// What a node does when it is asked for the block hashes: it sends those
/// of the main chain, oldest first, and changes nothing.
pub open spec fn spec_get_blocks_handled(
    before: ServerModel,
    after: ServerModel,
    addr_from: Seq<char>,
    out: Result<Vec<Outgoing>, BlockchainError>,
) -> bool {
    &&& out is Ok
    &&& after == before
    &&& outgoing_models(out->Ok_0@) == seq![
        OutgoingModel {
            addr: addr_from,
            package: PackageModel::Inv {
                addr_from: before.settings.node_addr,
                op_type: OpType::Block,
                items: spec_hashes_oldest_first(before.chain.main_chain()),
            },
        },
    ]
}

/// What a node does when it is asked for a block or a transaction: it sends
/// what it holds under the identifier, nothing where it holds nothing, and
/// changes nothing. A block is looked for in the store by the bytes of its
/// hash, a transaction in the mempool.
pub open spec fn spec_get_data_handled(
    before: ServerModel,
    after: ServerModel,
    addr_from: Seq<char>,
    op_type: OpType,
    id: Seq<u8>,
    out: Result<Vec<Outgoing>, BlockchainError>,
) -> bool {
    &&& out is Ok
    &&& after == before
    &&& out->Ok_0@.len() <= 1
    &&& op_type == OpType::Tx ==> (match spec_pool_get(before.mempool, spec_hex_encode(id)) {
        Some(transaction) => outgoing_models(out->Ok_0@) == seq![
            OutgoingModel {
                addr: addr_from,
                package: PackageModel::Tx {
                    addr_from: before.settings.node_addr,
                    transaction: transaction.encoding(),
                },
            },
        ],
        None => out->Ok_0@.len() == 0,
    })
    &&& op_type == OpType::Block ==> (if out->Ok_0@.len() == 1 {
        exists|block: BlockModel|
            vstd::utf8::encode_utf8(block.hash) == id && spec_get_block(
                before.chain.blocks,
                block.hash,
            ) == Some(block) && (#[trigger] spec_block_sent(before, addr_from, block))
                == outgoing_models(out->Ok_0@)
    } else {
        forall|j: int|
            0 <= j < before.chain.blocks.len() ==> vstd::utf8::encode_utf8(
                (#[trigger] before.chain.blocks[j]).hash,
            ) != id
    })
}

/// The message that delivers `block` to the peer at `addr_from`.
pub open spec fn spec_block_sent(before: ServerModel, addr_from: Seq<char>, block: BlockModel)
    -> Seq<OutgoingModel> {
    seq![
        OutgoingModel {
            addr: addr_from,
            package: PackageModel::Block {
                addr_from: before.settings.node_addr,
                block: block.encoding(),
            },
        },
    ]
}

/// What a node does with an announcement. Blocks: their hashes join the
/// queue, the first is asked for and leaves the queue. Transactions: each
/// that the mempool does not hold is asked for. Chain and mempool stay.
pub open spec fn spec_inv_handled(
    before: ServerModel,
    after: ServerModel,
    addr_from: Seq<char>,
    op_type: OpType,
    items: Seq<Seq<u8>>,
    out: Result<Vec<Outgoing>, BlockchainError>,
) -> bool {
    &&& out is Ok
    &&& after.chain == before.chain
    &&& after.mempool == before.mempool
    &&& after.settings == before.settings
    &&& op_type == OpType::Block ==> after.in_transit == (if items.len() > 0 {
        spec_without_first(before.in_transit + items, items[0])
    } else {
        before.in_transit
    }) && outgoing_models(out->Ok_0@) == (if items.len() > 0 {
        seq![
            OutgoingModel {
                addr: addr_from,
                package: PackageModel::GetData {
                    addr_from: before.settings.node_addr,
                    op_type: OpType::Block,
                    id: items[0],
                },
            },
        ]
    } else {
        Seq::<OutgoingModel>::empty()
    })
    &&& op_type == OpType::Tx ==> after.in_transit == before.in_transit && outgoing_models(
        out->Ok_0@,
    ) == spec_transaction_requests(before, addr_from, items)
}

/// What a node does with a transaction that came. `Network` where the bytes
/// hold no transaction, `Transaction` where the transaction is not valid
/// against the main chain: then nothing changes. Else it joins the mempool;
/// where the node mines and the mempool has reached ten transactions, a
/// block is mined as `try_mine_block` does. Nothing is sent.
pub open spec fn spec_tx_handled(
    before: ServerModel,
    after: ServerModel,
    transaction_data: Seq<u8>,
    out: Result<Vec<Outgoing>, BlockchainError>,
) -> bool {
    &&& after.in_transit == before.in_transit
    &&& after.settings == before.settings
    &&& out is Ok ==> out->Ok_0@.len() == 0
    &&& match TransactionModel::parse(transaction_data) {
        None => out is Err && out->Err_0 is Network && after == before,
        Some((transaction, rest)) => if !spec_verify(before.chain.main_chain(), transaction) {
            out is Err && out->Err_0 is Transaction && after == before
        } else {
            let admitted = ServerModel {
                mempool: spec_pool_put(
                    before.mempool,
                    spec_hex_encode(transaction.id),
                    transaction,
                ),
                ..before
            };
            if admitted.mempool.len() >= TRANSACTION_THRESHOLD && before.settings.mining_addr
                is Some {
                spec_mining_tried(
                    admitted,
                    after,
                    match out {
                        Ok(_) => Ok(()),
                        Err(e) => Err(e),
                    },
                )
            } else {
                out is Ok && after == admitted
            }
        },
    }
}

/// What a node does with a transaction that came, where mining that falls
/// due is done with the given extranonce and timestamp; see
/// `spec_tx_handled` and `spec_mining_tried_with`.
pub open spec fn spec_tx_handled_with(
    before: ServerModel,
    after: ServerModel,
    transaction_data: Seq<u8>,
    extranonce: Seq<u8>,
    timestamp: i64,
    out: Result<Vec<Outgoing>, BlockchainError>,
) -> bool {
    &&& after.in_transit == before.in_transit
    &&& after.settings == before.settings
    &&& out is Ok ==> out->Ok_0@.len() == 0
    &&& match TransactionModel::parse(transaction_data) {
        None => out is Err && out->Err_0 is Network && after == before,
        Some((transaction, rest)) => if !spec_verify(before.chain.main_chain(), transaction) {
            out is Err && out->Err_0 is Transaction && after == before
        } else {
            let admitted = ServerModel {
                mempool: spec_pool_put(
                    before.mempool,
                    spec_hex_encode(transaction.id),
                    transaction,
                ),
                ..before
            };
            if admitted.mempool.len() >= TRANSACTION_THRESHOLD && before.settings.mining_addr
                is Some {
                spec_mining_tried_with(
                    admitted,
                    after,
                    extranonce,
                    timestamp,
                    match out {
                        Ok(_) => Ok(()),
                        Err(e) => Err(e),
                    },
                )
            } else {
                out is Ok && after == admitted
            }
        },
    }
}

/// What a node does with a greeting: it answers as `spec_version_reply`
/// says and changes nothing.
pub open spec fn spec_version_handled(
    before: ServerModel,
    after: ServerModel,
    addr_from: Seq<char>,
    best_height: usize,
    out: Result<Vec<Outgoing>, BlockchainError>,
) -> bool {
    &&& out is Ok
    &&& after == before
    &&& outgoing_models(out->Ok_0@) == spec_version_reply(before, addr_from, best_height)
}

/// What a node does with a message, by the kind of the message.
pub open spec fn spec_message_handled(
    before: ServerModel,
    after: ServerModel,
    package: PackageModel,
    out: Result<Vec<Outgoing>, BlockchainError>,
) -> bool {
    match package {
        PackageModel::Block { addr_from, block } => spec_block_handled(
            before,
            after,
            addr_from,
            block,
            out,
        ),
        PackageModel::GetBlocks { addr_from } => spec_get_blocks_handled(
            before,
            after,
            addr_from,
            out,
        ),
        PackageModel::GetData { addr_from, op_type, id } => spec_get_data_handled(
            before,
            after,
            addr_from,
            op_type,
            id,
            out,
        ),
        PackageModel::Inv { addr_from, op_type, items } => spec_inv_handled(
            before,
            after,
            addr_from,
            op_type,
            items,
            out,
        ),
        PackageModel::Tx { addr_from, transaction } => spec_tx_handled(
            before,
            after,
            transaction,
            out,
        ),
        PackageModel::Version { addr_from, version, best_height } => spec_version_handled(
            before,
            after,
            addr_from,
            best_height,
            out,
        ),
    }
}

impl Server {
    /// A node with `blockchain`, an empty mempool, no blocks to wait for, the
    /// default settings and room for eight connections.
    pub fn new(blockchain: Blockchain) -> (out: Self)
        ensures
            out@.chain == blockchain@,
            out@.mempool.len() == 0,
            out@.in_transit.len() == 0,
            out@.settings == (SettingsModel {
                node_addr: crate::config::settings::DEFAULT_NODE_ADDR@,
                mining_addr: None,
                node_id: None,
            }),
            out.spec_connected().len() == 0,
            out.spec_max_connections() == 8,
    {
        Self {
            blockchain,
            mempool: MemoryPool::new(),
            blocks_in_transit: BlockInTransit::new(),
            config: Config::new(),
            peer_manager: SimplePeerManager::new(8, 2001),
        }
    }

    /// A node with the given chain and settings.
    pub fn with_config(blockchain: Blockchain, config: Config) -> (out: Self)
        ensures
            out@.chain == blockchain@,
            out@.mempool.len() == 0,
            out@.in_transit.len() == 0,
            out@.settings == config@,
            out.spec_connected().len() == 0,
            out.spec_max_connections() == 8,
    {
        Self {
            blockchain,
            mempool: MemoryPool::new(),
            blocks_in_transit: BlockInTransit::new(),
            config,
            peer_manager: SimplePeerManager::new(8, 2001),
        }
    }

    /// The chain.
    pub fn get_blockchain(&self) -> (out: &Blockchain)
        ensures
            out@ == self@.chain,
    {
        &self.blockchain
    }

    /// The mempool.
    pub fn get_mempool(&self) -> (out: &MemoryPool)
        ensures
            out@ == self@.mempool,
    {
        &self.mempool
    }

    /// The blocks that the node waits for.
    pub fn get_blocks_in_transit(&self) -> (out: &BlockInTransit)
        ensures
            out@ == self@.in_transit,
    {
        &self.blocks_in_transit
    }

    /// The settings.
    pub fn get_config(&self) -> (out: &Config)
        ensures
            out@ == self@.settings,
    {
        &self.config
    }

    /// The connected peers.
    pub fn get_peer_manager(&self) -> (out: &SimplePeerManager)
        ensures
            out.spec_connected() == self.spec_connected(),
            out.spec_max_connections() == self.spec_max_connections(),
    {
        &self.peer_manager
    }

    /// The addresses of the connected peers.
    pub closed spec fn spec_connected(&self) -> Seq<Seq<char>> {
        self.peer_manager.spec_connected()
    }

    /// The limit on the number of connections.
    pub closed spec fn spec_max_connections(&self) -> usize {
        self.peer_manager.spec_max_connections()
    }

    /// Notes that the peer at `address` is connected, where the limit on
    /// connections leaves room for it; the result says whether it does.
    pub fn accept_connection(&mut self, address: String) -> (accepted: bool)
        ensures
            final(self)@ == old(self)@,
            final(self).spec_max_connections() == old(self).spec_max_connections(),
            accepted == (old(self).spec_connected().len() < old(self).spec_max_connections()),
            final(self).spec_connected() == (if accepted && !old(self).spec_connected().contains(
                address@,
            ) {
                old(self).spec_connected().push(address@)
            } else {
                old(self).spec_connected()
            }),
    {
        let mut manager = SimplePeerManager::new(0, 0);
        core::mem::swap(&mut manager, &mut self.peer_manager);
        let accepted = match manager.should_accept_connection() {
            Ok(room) => room,
            Err(_) => false,
        };
        if accepted {
            let _ = manager.record_connection(address);
        }
        self.peer_manager = manager;
        accepted
    }

    /// Notes that the peer at `address` is no longer connected.
    pub fn close_connection(&mut self, address: &str)
        ensures
            final(self)@ == old(self)@,
            final(self).spec_max_connections() == old(self).spec_max_connections(),
            final(self).spec_connected() == spec_without_first(
                old(self).spec_connected(),
                address@,
            ),
    {
        let mut manager = SimplePeerManager::new(0, 0);
        core::mem::swap(&mut manager, &mut self.peer_manager);
        let _ = manager.record_disconnection(address);
        self.peer_manager = manager;
    }

    /// Gives the chain back.
    pub fn into_blockchain(self) -> (out: Blockchain)
        ensures
            out@ == self@.chain,
    {
        self.blockchain
    }

    /// What a node that listens on `addr` sends when it starts: a greeting
    /// to the seed node with the height of its tip, unless it is the seed
    /// node or its store does not hold the tip.
    pub fn connect_to_network(&self, addr: &str) -> (out: Vec<Outgoing>)
        ensures
            outgoing_models(out@) == (if addr@ != CENTRAL_NODE@ && self@.chain.best_height()
                is Some {
                seq![
                    OutgoingModel {
                        addr: CENTRAL_NODE@,
                        package: PackageModel::Version {
                            addr_from: self@.settings.node_addr,
                            version: NODE_VERSION,
                            best_height: self@.chain.best_height()->Some_0,
                        },
                    },
                ]
            } else {
                Seq::<OutgoingModel>::empty()
            }),
    {
        let mut out: Vec<Outgoing> = Vec::new();
        if !text_eq(addr, CENTRAL_NODE) {
            match self.blockchain.get_best_height() {
                Ok(best_height) => {
                    out.push(self.send_version(CENTRAL_NODE, best_height));
                },
                Err(_) => {},
            }
        }
        assert(outgoing_models(out@) =~= (if addr@ != CENTRAL_NODE@ && self@.chain.best_height()
            is Some {
            seq![
                OutgoingModel {
                    addr: CENTRAL_NODE@,
                    package: PackageModel::Version {
                        addr_from: self@.settings.node_addr,
                        version: NODE_VERSION,
                        best_height: self@.chain.best_height()->Some_0,
                    },
                },
            ]
        } else {
            Seq::<OutgoingModel>::empty()
        }));
        out
    }

    /// Does what a message asks for and returns what is to be sent.
    pub fn process_message(&mut self, pkg: Package) -> (out: Result<Vec<Outgoing>, BlockchainError>)
        ensures
            final(self).spec_connected() == old(self).spec_connected(),
            final(self).spec_max_connections() == old(self).spec_max_connections(),
            spec_message_handled(old(self)@, final(self)@, pkg@, out),
    {
        match pkg {
            Package::Block { addr_from, block } => self.handle_block_message(addr_from, block),
            Package::GetBlocks { addr_from } => self.handle_get_blocks_message(addr_from),
            Package::GetData { addr_from, op_type, id } => self.handle_get_data_message(
                addr_from,
                op_type,
                id,
            ),
            Package::Inv { addr_from, op_type, items } => self.handle_inv_message(
                addr_from,
                op_type,
                items,
            ),
            Package::Tx { addr_from: _, transaction } => self.handle_tx_message(transaction),
            Package::Version { addr_from, version: _, best_height } => self.handle_version_message(
                addr_from,
                best_height,
            ),
        }
    }

    /// A block came: it is decoded, checked as blocks from peers are unless
    /// the store holds it already, and taken into the store. Where blocks
    /// are still waited for, the first of them is asked for and leaves the
    /// queue; where none is, the UTXO index is rebuilt. `Network` where the
    /// bytes hold no block or the store does not hold the tip,
    /// `InvalidBlock` for a block that fails the check: then nothing
    /// changes.
    pub fn handle_block_message(&mut self, addr_from: String, block_data: Vec<u8>) -> (out: Result<
        Vec<Outgoing>,
        BlockchainError,
    >)
        ensures
            final(self).spec_connected() == old(self).spec_connected(),
            final(self).spec_max_connections() == old(self).spec_max_connections(),
            spec_block_handled(old(self)@, final(self)@, addr_from@, block_data@, out),
    {
        let block = match Block::deserialize(block_data.as_slice()) {
            Ok(block) => block,
            Err(_) => {
                return Err(BlockchainError::Network(owned("Failed to deserialize block")));
            },
        };
        let known = match self.blockchain.block_exists(block.get_hash()) {
            Ok(known) => known,
            Err(_) => false,
        };
        if !known {
            match self.blockchain.validate_block_for_sync(&block) {
                Ok(true) => {},
                _ => {
                    return Err(BlockchainError::InvalidBlock(owned("Block from peer is not valid")));
                },
            }
        }
        match self.blockchain.add_block(&block) {
            Ok(()) => {},
            Err(_) => {
                return Err(BlockchainError::Network(owned("Failed to add block")));
            },
        }
        let mut out: Vec<Outgoing> = Vec::new();
        match self.blocks_in_transit.first() {
            Some(block_hash) => {
                out.push(self.send_get_data(addr_from.as_str(), OpType::Block, block_hash.as_slice()));
                self.blocks_in_transit.remove(block_hash.as_slice());
                assert(outgoing_models(out@) =~= seq![
                    OutgoingModel {
                        addr: addr_from@,
                        package: PackageModel::GetData {
                            addr_from: old(self)@.settings.node_addr,
                            op_type: OpType::Block,
                            id: old(self)@.in_transit[0],
                        },
                    },
                ]);
            },
            None => {
                self.blockchain.reindex_chainstate();
            },
        }
        Ok(out)
    }

    /// A peer asks for the block hashes: it is sent those of the main chain,
    /// oldest first.
    pub fn handle_get_blocks_message(&mut self, addr_from: String) -> (out: Result<
        Vec<Outgoing>,
        BlockchainError,
    >)
        ensures
            final(self).spec_connected() == old(self).spec_connected(),
            final(self).spec_max_connections() == old(self).spec_max_connections(),
            spec_get_blocks_handled(old(self)@, final(self)@, addr_from@, out),
    {
        let newest_first = self.blockchain.get_block_hashes();
        let ghost chain = self@.chain.main_chain();
        let count = newest_first.len();
        let mut blocks: Vec<Vec<u8>> = Vec::new();
        let mut k: usize = 0;
        while k < count
            invariant
                k <= count,
                count == newest_first@.len(),
                count == chain.len(),
                blocks@.len() == k,
                forall|j: int|
                    0 <= j < count ==> (#[trigger] newest_first@[j])@ == vstd::utf8::encode_utf8(
                        chain[j].hash,
                    ),
                forall|j: int|
                    0 <= j < k ==> (#[trigger] blocks@[j])@ == vstd::utf8::encode_utf8(
                        chain[count - 1 - j].hash,
                    ),
            decreases count - k,
        {
            blocks.push(newest_first[count - 1 - k].clone());
            k += 1;
        }
        assert(byte_views(blocks@) =~= spec_hashes_oldest_first(chain));
        let mut out: Vec<Outgoing> = Vec::new();
        out.push(self.send_inv(addr_from.as_str(), OpType::Block, blocks));
        assert(outgoing_models(out@) =~= seq![
            OutgoingModel {
                addr: addr_from@,
                package: PackageModel::Inv {
                    addr_from: old(self)@.settings.node_addr,
                    op_type: OpType::Block,
                    items: spec_hashes_oldest_first(old(self)@.chain.main_chain()),
                },
            },
        ]);
        Ok(out)
    }

    /// A peer asks for a block or a transaction: it is sent what this node
    /// holds under the identifier, and nothing where it holds nothing.
    pub fn handle_get_data_message(&mut self, addr_from: String, op_type: OpType, id: Vec<u8>) -> (out:
        Result<Vec<Outgoing>, BlockchainError>)
        ensures
            final(self).spec_connected() == old(self).spec_connected(),
            final(self).spec_max_connections() == old(self).spec_max_connections(),
            spec_get_data_handled(old(self)@, final(self)@, addr_from@, op_type, id@, out),
    {
        let mut out: Vec<Outgoing> = Vec::new();
        match op_type {
            OpType::Block => match self.blockchain.get_block_by_bytes(id.as_slice()) {
                Ok(Some(block)) => {
                    out.push(self.send_block(addr_from.as_str(), &block));
                    assert(spec_block_sent(old(self)@, addr_from@, block@) =~= outgoing_models(
                        out@,
                    ));
                },
                _ => {},
            },
            OpType::Tx => {
                let txid_hex = hex_encode(id.as_slice());
                match self.mempool.get(txid_hex.as_str()) {
                    Some(tx) => {
                        out.push(self.send_tx(addr_from.as_str(), &tx));
                        assert(outgoing_models(out@) =~= seq![
                            OutgoingModel {
                                addr: addr_from@,
                                package: PackageModel::Tx {
                                    addr_from: old(self)@.settings.node_addr,
                                    transaction: tx@.encoding(),
                                },
                            },
                        ]);
                    },
                    None => {},
                }
            },
        }
        Ok(out)
    }

    /// A peer announces blocks or transactions. Blocks: their hashes join
    /// the queue, the first is asked for and leaves the queue.
    /// Transactions: each that the mempool does not hold is asked for.
    pub fn handle_inv_message(&mut self, addr_from: String, op_type: OpType, items: Vec<Vec<u8>>)
        -> (out: Result<Vec<Outgoing>, BlockchainError>)
        ensures
            final(self).spec_connected() == old(self).spec_connected(),
            final(self).spec_max_connections() == old(self).spec_max_connections(),
            spec_inv_handled(
                old(self)@,
                final(self)@,
                addr_from@,
                op_type,
                byte_views(items@),
                out,
            ),
    {
        let mut out: Vec<Outgoing> = Vec::new();
        match op_type {
            OpType::Block => {
                self.blocks_in_transit.add_blocks(items.as_slice());
                if items.len() > 0 {
                    let block_hash = &items[0];
                    out.push(self.send_get_data(addr_from.as_str(), OpType::Block, block_hash.as_slice()));
                    self.blocks_in_transit.remove(block_hash.as_slice());
                    assert(outgoing_models(out@) =~= seq![
                        OutgoingModel {
                            addr: addr_from@,
                            package: PackageModel::GetData {
                                addr_from: old(self)@.settings.node_addr,
                                op_type: OpType::Block,
                                id: items@[0]@,
                            },
                        },
                    ]);
                } else {
                    assert(byte_views(items@) =~= Seq::<Seq<u8>>::empty());
                    assert(old(self)@.in_transit + Seq::<Seq<u8>>::empty() =~= old(self)@.in_transit);
                    assert(outgoing_models(out@) =~= Seq::<OutgoingModel>::empty());
                }
            },
            OpType::Tx => {
                let ghost ids = byte_views(items@);
                let ghost state = self@;
                let mut i: usize = 0;
                proof {
                    assert(ids.take(0) =~= Seq::<Seq<u8>>::empty());
                    assert(outgoing_models(out@) =~= Seq::<OutgoingModel>::empty());
                }
                while i < items.len()
                    invariant
                        i <= items@.len(),
                        ids == byte_views(items@),
                        ids.len() == items@.len(),
                        state == old(self)@,
                        self@ == state,
                        outgoing_models(out@) == spec_transaction_requests(
                            state,
                            addr_from@,
                            ids.take(i as int),
                        ),
                    decreases items@.len() - i,
                {
                    let txid = &items[i];
                    proof {
                        assert(ids[i as int] == txid@);
                        assert(ids.take(i + 1).drop_last() =~= ids.take(i as int));
                        assert(ids.take(i + 1).last() == txid@);
                    }
                    let txid_hex = hex_encode(txid.as_slice());
                    if !self.mempool.contains(txid_hex.as_str()) {
                        let ghost before = out@;
                        let request = self.send_get_data(
                            addr_from.as_str(),
                            OpType::Tx,
                            txid.as_slice(),
                        );
                        out.push(request);
                        assert(outgoing_models(out@) =~= outgoing_models(before).push(request@));
                    }
                    i += 1;
                }
                assert(ids.take(ids.len() as int) =~= ids);
            },
        }
        Ok(out)
    }

    /// Takes a transaction that came into the mempool where it is valid
    /// against the main chain, and says whether mining falls due: this node
    /// mines and the mempool has reached ten transactions. `Network` where
    /// the bytes hold no transaction, `Transaction` where the transaction is
    /// not valid: then nothing changes.
    fn admit_transaction(&mut self, transaction_data: &[u8]) -> (out: Result<bool, BlockchainError>)
        ensures
            final(self).spec_connected() == old(self).spec_connected(),
            final(self).spec_max_connections() == old(self).spec_max_connections(),
            match TransactionModel::parse(transaction_data@) {
                None => out is Err && out->Err_0 is Network && final(self)@ == old(self)@,
                Some((transaction, rest)) => if !spec_verify(
                    old(self)@.chain.main_chain(),
                    transaction,
                ) {
                    out is Err && out->Err_0 is Transaction && final(self)@ == old(self)@
                } else {
                    out is Ok && final(self)@ == (ServerModel {
                        mempool: spec_pool_put(
                            old(self)@.mempool,
                            spec_hex_encode(transaction.id),
                            transaction,
                        ),
                        ..old(self)@
                    }) && out->Ok_0 == (final(self)@.mempool.len() >= TRANSACTION_THRESHOLD
                        && old(self)@.settings.mining_addr is Some)
                },
            },
    {
        let tx = match Transaction::deserialize(transaction_data) {
            Ok(tx) => tx,
            Err(_) => {
                return Err(BlockchainError::Network(owned("Failed to deserialize transaction")));
            },
        };
        if !tx.verify(&self.blockchain) {
            return Err(BlockchainError::Transaction(owned("Transaction is not valid")));
        }
        self.mempool.add(tx);
        Ok(self.mempool.len() >= TRANSACTION_THRESHOLD && self.config.is_miner())
    }

    /// A transaction came. It joins the mempool where it is valid against
    /// the main chain. Where this node mines and the mempool has reached ten
    /// transactions, a block is mined from them with a fresh extranonce and
    /// the time of the clock. `Network` where the bytes hold no transaction,
    /// `Transaction` where the transaction is not valid: then nothing
    /// changes.
    pub fn handle_tx_message(&mut self, transaction_data: Vec<u8>) -> (out: Result<
        Vec<Outgoing>,
        BlockchainError,
    >)
        ensures
            final(self).spec_connected() == old(self).spec_connected(),
            final(self).spec_max_connections() == old(self).spec_max_connections(),
            spec_tx_handled(old(self)@, final(self)@, transaction_data@, out),
    {
        let due = match self.admit_transaction(transaction_data.as_slice()) {
            Ok(due) => due,
            Err(e) => { return Err(e); },
        };
        if due {
            match self.try_mine_block() {
                Ok(()) => {},
                Err(e) => { return Err(e); },
            }
        }
        Ok(Vec::new())
    }

    /// As `handle_tx_message`, with the extranonce and the timestamp of the
    /// block that is mined where mining falls due; see
    /// `spec_tx_handled_with`.
    pub fn handle_tx_message_with(
        &mut self,
        transaction_data: Vec<u8>,
        extranonce: Vec<u8>,
        timestamp: i64,
    ) -> (out: Result<Vec<Outgoing>, BlockchainError>)
        ensures
            final(self).spec_connected() == old(self).spec_connected(),
            final(self).spec_max_connections() == old(self).spec_max_connections(),
            spec_tx_handled_with(
                old(self)@,
                final(self)@,
                transaction_data@,
                extranonce@,
                timestamp,
                out,
            ),
    {
        let due = match self.admit_transaction(transaction_data.as_slice()) {
            Ok(due) => due,
            Err(e) => { return Err(e); },
        };
        if due {
            match self.try_mine_block_with(extranonce, timestamp) {
                Ok(()) => {},
                Err(e) => { return Err(e); },
            }
        }
        Ok(Vec::new())
    }

    /// A greeting came; see `spec_version_reply`.
    pub fn handle_version_message(&mut self, addr_from: String, best_height: usize) -> (out: Result<
        Vec<Outgoing>,
        BlockchainError,
    >)
        ensures
            final(self).spec_connected() == old(self).spec_connected(),
            final(self).spec_max_connections() == old(self).spec_max_connections(),
            spec_version_handled(old(self)@, final(self)@, addr_from@, best_height, out),
    {
        let mut out: Vec<Outgoing> = Vec::new();
        match self.blockchain.get_best_height() {
            Ok(local_best_height) => {
                if local_best_height < best_height {
                    out.push(self.send_get_blocks(addr_from.as_str()));
                }
                if local_best_height > best_height {
                    out.push(self.send_version(addr_from.as_str(), local_best_height));
                }
            },
            Err(_) => {},
        }
        assert(outgoing_models(out@) =~= spec_version_reply(old(self)@, addr_from@, best_height));
        Ok(out)
    }

    /// Mines a block from the transactions of the mempool with a fresh
    /// extranonce and the time of the clock, with a coinbase that pays
    /// reward and fees to the mining address; then the UTXO index is rebuilt
    /// and the transactions leave the mempool. `Network` where no mining
    /// address is set, the clock fails or mining fails: then chain and
    /// mempool stay as they were. See `try_mine_block_with`.
    pub fn try_mine_block(&mut self) -> (out: Result<(), BlockchainError>)
        ensures
            final(self).spec_connected() == old(self).spec_connected(),
            final(self).spec_max_connections() == old(self).spec_max_connections(),
            spec_mining_tried(old(self)@, final(self)@, out),
    {
        if !self.config.is_miner() {
            return Err(BlockchainError::Network(owned("Mining address not configured")));
        }
        let extranonce = crate::chain::transaction::fresh_extranonce();
        let ghost nonce = extranonce@;
        let timestamp = match crate::utils::crypto::current_timestamp() {
            Ok(timestamp) => timestamp,
            Err(e) => {
                return Err(
                    BlockchainError::Network(
                        String::from_str("Failed to mine block: ").concat(e.to_string().as_str()),
                    ),
                );
            },
        };
        let out = self.try_mine_block_with(extranonce, timestamp);
        proof {
            if out is Ok {
                let before = old(self)@;
                let pool = spec_pool_transactions(before.mempool);
                let miner = before.settings.mining_addr;
                let block = crate::chain::blockchain::spec_next_block(
                    before.chain,
                    pool,
                    miner,
                    nonce,
                    timestamp,
                );
                let mined = ChainModel {
                    tip: block.hash,
                    blocks: crate::chain::blockchain::spec_put_block(before.chain.blocks, block),
                    chainstate: before.chain.chainstate,
                };
                assert(mined == (ChainModel { chainstate: before.chain.chainstate, ..self@.chain }));
                assert(spec_mined_and_indexed(
                    before.chain,
                    self@.chain,
                    block,
                    pool,
                    miner,
                    nonce,
                    timestamp,
                ));
            }
        }
        out
    }

    /// Mines a block from the transactions of the mempool with the given
    /// extranonce and timestamp; see `spec_mining_tried_with`.
    pub fn try_mine_block_with(&mut self, extranonce: Vec<u8>, timestamp: i64) -> (out: Result<
        (),
        BlockchainError,
    >)
        ensures
            final(self).spec_connected() == old(self).spec_connected(),
            final(self).spec_max_connections() == old(self).spec_max_connections(),
            spec_mining_tried_with(old(self)@, final(self)@, extranonce@, timestamp, out),
    {
        let mining_address = match self.config.get_mining_addr() {
            Some(address) => address,
            None => {
                return Err(BlockchainError::Network(owned("Mining address not configured")));
            },
        };
        let txs = self.mempool.get_all();
        assert(crate::chain::transaction::transaction_models(txs@) =~= spec_pool_transactions(
            self@.mempool,
        ));
        let new_block = match self.blockchain.mine_block_with(
            txs.as_slice(),
            Some(mining_address.as_str()),
            extranonce,
            timestamp,
        ) {
            Ok(block) => block,
            Err(e) => {
                return Err(
                    BlockchainError::Network(
                        String::from_str("Failed to mine block: ").concat(e.to_string().as_str()),
                    ),
                );
            },
        };
        let ghost mined = self@.chain;
        self.blockchain.reindex_chainstate();
        let ghost chain = self@.chain;
        let ghost models = spec_pool_transactions(old(self)@.mempool);
        let mut i: usize = 0;
        assert(models.take(0) =~= Seq::<TransactionModel>::empty());
        while i < txs.len()
            invariant
                i <= txs@.len(),
                models == spec_pool_transactions(old(self)@.mempool),
                models == crate::chain::transaction::transaction_models(txs@),
                models.len() == txs@.len(),
                self@.mempool == spec_pool_without(old(self)@.mempool, models.take(i as int)),
                self@.chain == chain,
                self@.in_transit == old(self)@.in_transit,
                self@.settings == old(self)@.settings,
                self.spec_connected() == old(self).spec_connected(),
                self.spec_max_connections() == old(self).spec_max_connections(),
            decreases txs@.len() - i,
        {
            proof {
                assert(models.take(i + 1).drop_last() =~= models.take(i as int));
                assert(models.take(i + 1).last() == txs@[i as int]@);
            }
            let txid_hex = hex_encode(txs[i].get_id());
            self.mempool.remove(txid_hex.as_str());
            i += 1;
        }
        assert(models.take(models.len() as int) =~= models);
        Ok(())
    }

    /// A greeting for the peer at `addr`.
    pub fn send_version(&self, addr: &str, height: usize) -> (out: Outgoing)
        ensures
            out@ == (OutgoingModel {
                addr: addr@,
                package: PackageModel::Version {
                    addr_from: self@.settings.node_addr,
                    version: NODE_VERSION,
                    best_height: height,
                },
            }),
    {
        Outgoing {
            addr: owned(addr),
            package: Package::Version {
                addr_from: self.config.get_node_addr(),
                version: NODE_VERSION,
                best_height: height,
            },
        }
    }

    /// A request for the block hashes of the peer at `addr`.
    pub fn send_get_blocks(&self, addr: &str) -> (out: Outgoing)
        ensures
            out@ == (OutgoingModel {
                addr: addr@,
                package: PackageModel::GetBlocks { addr_from: self@.settings.node_addr },
            }),
    {
        Outgoing {
            addr: owned(addr),
            package: Package::GetBlocks { addr_from: self.config.get_node_addr() },
        }
    }

    /// A request to the peer at `addr` for what stands under `id`.
    pub fn send_get_data(&self, addr: &str, op_type: OpType, id: &[u8]) -> (out: Outgoing)
        ensures
            out@ == (OutgoingModel {
                addr: addr@,
                package: PackageModel::GetData {
                    addr_from: self@.settings.node_addr,
                    op_type,
                    id: id@,
                },
            }),
    {
        Outgoing {
            addr: owned(addr),
            package: Package::GetData {
                addr_from: self.config.get_node_addr(),
                op_type,
                id: vstd::slice::slice_to_vec(id),
            },
        }
    }

    /// An announcement of `items` to the peer at `addr`.
    pub fn send_inv(&self, addr: &str, op_type: OpType, items: Vec<Vec<u8>>) -> (out: Outgoing)
        ensures
            out@ == (OutgoingModel {
                addr: addr@,
                package: PackageModel::Inv {
                    addr_from: self@.settings.node_addr,
                    op_type,
                    items: byte_views(items@),
                },
            }),
    {
        Outgoing {
            addr: owned(addr),
            package: Package::Inv { addr_from: self.config.get_node_addr(), op_type, items },
        }
    }

    /// The block, encoded, for the peer at `addr`.
    pub fn send_block(&self, addr: &str, block: &Block) -> (out: Outgoing)
        ensures
            out@ == (OutgoingModel {
                addr: addr@,
                package: PackageModel::Block {
                    addr_from: self@.settings.node_addr,
                    block: block@.encoding(),
                },
            }),
    {
        Outgoing {
            addr: owned(addr),
            package: Package::Block {
                addr_from: self.config.get_node_addr(),
                block: block.encoded(),
            },
        }
    }

    /// The transaction, encoded, for the peer at `addr`.
    pub fn send_tx(&self, addr: &str, tx: &Transaction) -> (out: Outgoing)
        ensures
            out@ == (OutgoingModel {
                addr: addr@,
                package: PackageModel::Tx {
                    addr_from: self@.settings.node_addr,
                    transaction: tx@.encoding(),
                },
            }),
    {
        Outgoing {
            addr: owned(addr),
            package: Package::Tx { addr_from: self.config.get_node_addr(), transaction: tx.encoded() },
        }
    }
}

/// The transaction, encoded, as a message from `node_addr` for the peer at
/// `addr`.
pub fn send_tx(addr: &str, node_addr: &str, tx: &Transaction) -> (out: Outgoing)
    ensures
        out@ == (OutgoingModel {
            addr: addr@,
            package: PackageModel::Tx { addr_from: node_addr@, transaction: tx@.encoding() },
        }),
{
    Outgoing {
        addr: owned(addr),
        package: Package::Tx { addr_from: owned(node_addr), transaction: tx.encoded() },
    }
}

} // verus!
