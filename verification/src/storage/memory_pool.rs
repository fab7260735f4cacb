//! The mempool of transactions that are not yet in a block, and the queue of
//! blocks that were asked for and have not yet come.

use crate::chain::blockchain::text_eq;
use crate::chain::transaction::{bytes_eq, Transaction, TransactionModel};
use crate::utils::crypto::{hex_encode, spec_hex_encode};
use crate::utils::lists::{lemma_without_first_at, spec_without_first};
use vstd::prelude::*;

verus! {

/// A transaction of the mempool under its identifier in hexadecimal.
pub struct PoolEntry {
    pub txid_hex: String,
    pub transaction: Transaction,
}

/// What an entry of the mempool is.
pub struct EntryModel {
    pub txid_hex: Seq<char>,
    pub transaction: TransactionModel,
}

impl View for PoolEntry {
    type V = EntryModel;

    open spec fn view(&self) -> EntryModel {
        EntryModel { txid_hex: self.txid_hex@, transaction: self.transaction@ }
    }
}

/// The models of a list of entries.
pub open spec fn entry_models(entries: Seq<PoolEntry>) -> Seq<EntryModel> {
    entries.map_values(|e: PoolEntry| e@)
}

/// Whether `i` is the place of the first entry under `key`.
pub open spec fn spec_first_entry_at(entries: Seq<EntryModel>, key: Seq<char>, i: int) -> bool {
    &&& 0 <= i < entries.len()
    &&& entries[i].txid_hex == key
    &&& forall|j: int| 0 <= j < i ==> (#[trigger] entries[j]).txid_hex != key
}

/// Whether no entry stands under `key`.
pub open spec fn spec_entry_absent(entries: Seq<EntryModel>, key: Seq<char>) -> bool {
    forall|j: int| 0 <= j < entries.len() ==> (#[trigger] entries[j]).txid_hex != key
}

/// The place of the first entry under `key`.
pub open spec fn spec_entry_index(entries: Seq<EntryModel>, key: Seq<char>) -> int {
    choose|i: int| spec_first_entry_at(entries, key, i)
}

/// The transaction under `key`.
pub open spec fn spec_pool_get(entries: Seq<EntryModel>, key: Seq<char>) -> Option<
    TransactionModel,
> {
    if spec_entry_absent(entries, key) {
        None
    } else {
        Some(entries[spec_entry_index(entries, key)].transaction)
    }
}

/// The mempool after a transaction is put under `key`: it takes the place of
/// the one that stood there, or comes last.
pub open spec fn spec_pool_put(
    entries: Seq<EntryModel>,
    key: Seq<char>,
    transaction: TransactionModel,
) -> Seq<EntryModel> {
    if spec_entry_absent(entries, key) {
        entries.push(EntryModel { txid_hex: key, transaction })
    } else {
        entries.update(spec_entry_index(entries, key), EntryModel { txid_hex: key, transaction })
    }
}

/// The mempool after the entry under `key` is taken out.
pub open spec fn spec_pool_remove(entries: Seq<EntryModel>, key: Seq<char>) -> Seq<EntryModel> {
    if spec_entry_absent(entries, key) {
        entries
    } else {
        entries.remove(spec_entry_index(entries, key))
    }
}

/// A found place is the place of the first entry under the key.
pub proof fn lemma_entry_index(entries: Seq<EntryModel>, key: Seq<char>, i: int)
    requires
        spec_first_entry_at(entries, key, i),
    ensures
        !spec_entry_absent(entries, key),
        spec_entry_index(entries, key) == i,
        spec_pool_get(entries, key) == Some(entries[i].transaction),
{
    let k = spec_entry_index(entries, key);
    assert(spec_first_entry_at(entries, key, k));
    if k < i {
        assert(entries[k].txid_hex != key);
    }
    if i < k {
        assert(entries[i].txid_hex != key);
    }
}

/// The transactions that wait for a block, each under its identifier in
/// hexadecimal.
pub struct MemoryPool {
    inner: Vec<PoolEntry>,
}

impl View for MemoryPool {
    type V = Seq<EntryModel>;

    closed spec fn view(&self) -> Seq<EntryModel> {
        entry_models(self.inner@)
    }
}

impl MemoryPool {
    /// An empty mempool.
    pub fn new() -> (out: MemoryPool)
        ensures
            out@.len() == 0,
    {
        let out = MemoryPool { inner: Vec::new() };
        assert(out@ =~= Seq::<EntryModel>::empty());
        out
    }

    /// The place of the first entry under `txid`.
    fn find(&self, txid: &str) -> (out: Option<usize>)
        ensures
            match out {
                Some(i) => spec_first_entry_at(self@, txid@, i as int) && i < self.inner@.len()
                    && spec_pool_get(self@, txid@) == Some(self.inner@[i as int]@.transaction)
                    && spec_entry_index(self@, txid@) == i,
                None => spec_entry_absent(self@, txid@),
            },
    {
        let mut i: usize = 0;
        while i < self.inner.len()
            invariant
                i <= self.inner@.len(),
                forall|j: int| 0 <= j < i ==> (#[trigger] self@[j]).txid_hex != txid@,
            decreases self.inner@.len() - i,
        {
            assert(self@[i as int] == self.inner@[i as int]@);
            if text_eq(self.inner[i].txid_hex.as_str(), txid) {
                proof {
                    lemma_entry_index(self@, txid@, i as int);
                }
                return Some(i);
            }
            i += 1;
        }
        None
    }

    /// The transaction under `txid`.
    pub fn get(&self, txid: &str) -> (out: Option<Transaction>)
        ensures
            match spec_pool_get(self@, txid@) {
                Some(transaction) => out is Some && out->Some_0@ == transaction,
                None => out is None,
            },
    {
        match self.find(txid) {
            Some(i) => Some(self.inner[i].transaction.clone()),
            None => None,
        }
    }

    /// Puts `tx` under its identifier in hexadecimal.
    pub fn add(&mut self, tx: Transaction)
        ensures
            final(self)@ == spec_pool_put(old(self)@, spec_hex_encode(tx@.id), tx@),
    {
        let key = hex_encode(tx.get_id());
        let ghost before = self@;
        match self.find(key.as_str()) {
            Some(i) => {
                let entry = PoolEntry { txid_hex: key, transaction: tx };
                self.inner.set(i, entry);
                assert(self@ =~= before.update(i as int, entry@));
            },
            None => {
                let entry = PoolEntry { txid_hex: key, transaction: tx };
                self.inner.push(entry);
                assert(self@ =~= before.push(entry@));
            },
        }
    }

    /// Whether a transaction stands under `txid`.
    pub fn contains(&self, txid: &str) -> (out: bool)
        ensures
            out == (spec_pool_get(self@, txid@) is Some),
    {
        self.find(txid).is_some()
    }

    /// Takes the transaction under `txid` out.
    pub fn remove(&mut self, txid: &str)
        ensures
            final(self)@ == spec_pool_remove(old(self)@, txid@),
    {
        let ghost before = self@;
        match self.find(txid) {
            Some(i) => {
                let _ = self.inner.remove(i);
                assert(self@ =~= before.remove(i as int));
            },
            None => {},
        }
    }

    /// The number of transactions.
    pub fn len(&self) -> (out: usize)
        ensures
            out == self@.len(),
    {
        self.inner.len()
    }

    /// Copies of all transactions, in the order of the mempool.
    pub fn get_all(&self) -> (out: Vec<Transaction>)
        ensures
            out@.len() == self@.len(),
            forall|i: int| 0 <= i < out@.len() ==> (#[trigger] out@[i])@ == self@[i].transaction,
    {
        let mut out: Vec<Transaction> = Vec::new();
        let mut i: usize = 0;
        while i < self.inner.len()
            invariant
                i <= self.inner@.len(),
                out@.len() == i,
                forall|j: int| 0 <= j < i ==> (#[trigger] out@[j])@ == self@[j].transaction,
            decreases self.inner@.len() - i,
        {
            assert(self@[i as int] == self.inner@[i as int]@);
            out.push(self.inner[i].transaction.clone());
            i += 1;
        }
        out
    }

    /// Takes all transactions out.
    pub fn clear(&mut self)
        ensures
            final(self)@.len() == 0,
    {
        self.inner.clear();
        assert(self@ =~= Seq::<EntryModel>::empty());
    }

    /// Whether the mempool holds no transaction.
    pub fn is_empty(&self) -> (out: bool)
        ensures
            out == (self@.len() == 0),
    {
        self.inner.len() == 0
    }
}

impl Default for MemoryPool {
    fn default() -> (out: Self)
        ensures
            out@.len() == 0,
    {
        MemoryPool::new()
    }
}

/// The hashes of the blocks that were asked for and have not yet come, in
/// the order in which they were announced.
pub struct BlockInTransit {
    inner: Vec<Vec<u8>>,
}

impl View for BlockInTransit {
    type V = Seq<Seq<u8>>;

    closed spec fn view(&self) -> Seq<Seq<u8>> {
        crate::chain::merkle::byte_views(self.inner@)
    }
}

impl BlockInTransit {
    /// An empty queue.
    pub fn new() -> (out: BlockInTransit)
        ensures
            out@.len() == 0,
    {
        let out = BlockInTransit { inner: Vec::new() };
        assert(out@ =~= Seq::<Seq<u8>>::empty());
        out
    }

    /// Puts the hashes at the end of the queue, in order.
    pub fn add_blocks(&mut self, blocks: &[Vec<u8>])
        ensures
            final(self)@ == old(self)@ + crate::chain::merkle::byte_views(blocks@),
    {
        let ghost start = self@;
        let ghost added = crate::chain::merkle::byte_views(blocks@);
        let mut i: usize = 0;
        assert(start + added.take(0) =~= start);
        while i < blocks.len()
            invariant
                i <= blocks@.len(),
                added == crate::chain::merkle::byte_views(blocks@),
                added.len() == blocks@.len(),
                self@ == start + added.take(i as int),
            decreases blocks@.len() - i,
        {
            let ghost before = self@;
            self.inner.push(blocks[i].clone());
            proof {
                assert(self@ =~= before.push(added[i as int]));
                assert(start + added.take(i + 1) =~= (start + added.take(i as int)).push(
                    added[i as int],
                ));
            }
            i += 1;
        }
        assert(added.take(added.len() as int) =~= added);
    }

    /// The hash at the front of the queue.
    pub fn first(&self) -> (out: Option<Vec<u8>>)
        ensures
            self@.len() == 0 ==> out is None,
            self@.len() > 0 ==> out is Some && out->Some_0@ == self@[0],
    {
        if self.inner.len() == 0 {
            None
        } else {
            Some(self.inner[0].clone())
        }
    }

    /// Takes the first hash that is `block_hash` out of the queue.
    pub fn remove(&mut self, block_hash: &[u8])
        ensures
            final(self)@ == spec_without_first(old(self)@, block_hash@),
    {
        let ghost before = self@;
        let mut i: usize = 0;
        while i < self.inner.len()
            invariant
                i <= self.inner@.len(),
                self@ == before,
                before == old(self)@,
                forall|j: int| 0 <= j < i ==> #[trigger] before[j] != block_hash@,
            decreases self.inner@.len() - i,
        {
            assert(before[i as int] == self.inner@[i as int]@);
            if bytes_eq(self.inner[i].as_slice(), block_hash) {
                let _ = self.inner.remove(i);
                proof {
                    lemma_without_first_at(before, block_hash@, i as int);
                    assert(self@ =~= before.remove(i as int));
                }
                return ;
            }
            i += 1;
        }
        proof {
            lemma_without_first_at(before, block_hash@, before.len() as int);
        }
    }

    /// Takes all hashes out.
    pub fn clear(&mut self)
        ensures
            final(self)@.len() == 0,
    {
        self.inner.clear();
        assert(self@ =~= Seq::<Seq<u8>>::empty());
    }

    /// The number of hashes in the queue.
    pub fn len(&self) -> (out: usize)
        ensures
            out == self@.len(),
    {
        self.inner.len()
    }

    /// Whether the queue is empty.
    pub fn is_empty(&self) -> (out: bool)
        ensures
            out == (self@.len() == 0),
    {
        self.inner.len() == 0
    }
}

impl Default for BlockInTransit {
    fn default() -> (out: Self)
        ensures
            out@.len() == 0,
    {
        BlockInTransit::new()
    }
}

} // verus!
