//! The wallets of a node, by address.

use crate::chain::blockchain::text_eq;
use crate::error::{owned, BlockchainError};
use crate::utils::serialization::{spec_encode_list, spec_parse_list};
use crate::wallet::stored::{
    decode_entries, encode_entries, entries_wf, entry_models, lemma_entries_round_trip, HeldWallet,
};
use crate::wallet::wallet::{spec_address, spec_hash_pub_key, Wallet};
use vstd::prelude::*;

verus! {

/// The name of the file that holds the wallets.
pub const WALLET_FILE: &'static str = "wallet.dat";

/// A wallet under its address.
pub struct WalletEntry {
    pub address: String,
    pub wallet: Wallet,
}

/// The wallets of a node, each under the address of its public key.
pub struct Wallets {
    wallets: Vec<WalletEntry>,
}

/// The address under which a wallet stands.
pub open spec fn spec_wallet_address(wallet: Wallet) -> Seq<char> {
    spec_address(spec_hash_pub_key(wallet.spec_key()))
}

/// The wallet of the first entry under `address`.
pub open spec fn spec_find_wallet(entries: Seq<WalletEntry>, address: Seq<char>) -> Option<Wallet>
    decreases entries.len(),
{
    if entries.len() == 0 {
        None
    } else if entries[0].address@ == address {
        Some(entries[0].wallet)
    } else {
        spec_find_wallet(entries.skip(1), address)
    }
}

/// The addresses of the entries, in their order.
pub open spec fn spec_addresses(entries: Seq<WalletEntry>) -> Seq<Seq<char>> {
    entries.map_values(|entry: WalletEntry| entry.address@)
}

/// Where entry `i` is the first under `address`, its wallet is the one found.
pub proof fn lemma_find_wallet_at(entries: Seq<WalletEntry>, address: Seq<char>, i: int)
    requires
        0 <= i < entries.len(),
        entries[i].address@ == address,
        forall|j: int| 0 <= j < i ==> (#[trigger] entries[j]).address@ != address,
    ensures
        spec_find_wallet(entries, address) == Some(entries[i].wallet),
    decreases i,
{
    if i > 0 {
        assert(entries[0].address@ != address);
        let rest = entries.skip(1);
        assert(rest[i - 1] == entries[i]);
        assert forall|j: int| 0 <= j < i - 1 implies (#[trigger] rest[j]).address@ != address by {
            assert(rest[j] == entries[j + 1]);
        }
        lemma_find_wallet_at(rest, address, i - 1);
    }
}

/// A wallet is found exactly where an entry stands under the address.
pub proof fn lemma_find_wallet_some(entries: Seq<WalletEntry>, address: Seq<char>)
    ensures
        spec_find_wallet(entries, address) is Some <==> exists|i: int|
            0 <= i < entries.len() && (#[trigger] entries[i]).address@ == address,
    decreases entries.len(),
{
    if entries.len() > 0 {
        let rest = entries.skip(1);
        lemma_find_wallet_some(rest, address);
        if entries[0].address@ != address {
            if spec_find_wallet(rest, address) is Some {
                let k = choose|k: int| 0 <= k < rest.len() && (#[trigger] rest[k]).address@ == address;
                assert(entries[k + 1].address@ == address);
            }
            if exists|i: int| 0 <= i < entries.len() && (#[trigger] entries[i]).address@ == address {
                let i = choose|i: int|
                    0 <= i < entries.len() && (#[trigger] entries[i]).address@ == address;
                assert(rest[i - 1].address@ == address);
            }
        }
    }
}

/// Two lists that agree, place by place, on what stands under `address` give
/// the same wallet for it.
pub proof fn lemma_find_wallet_agrees(a: Seq<WalletEntry>, b: Seq<WalletEntry>, address: Seq<char>)
    requires
        a.len() == b.len(),
        forall|k: int|
            0 <= k < a.len() ==> ((#[trigger] a[k]).address@ == address <==> b[k].address@
                == address),
        forall|k: int|
            0 <= k < a.len() && (#[trigger] a[k]).address@ == address ==> a[k].wallet
                == b[k].wallet,
    ensures
        spec_find_wallet(a, address) == spec_find_wallet(b, address),
    decreases a.len(),
{
    if a.len() > 0 {
        assert(a[0].address@ == address <==> b[0].address@ == address);
        if a[0].address@ != address {
            let x = a.skip(1);
            let y = b.skip(1);
            assert forall|k: int| 0 <= k < x.len() implies ((#[trigger] x[k]).address@ == address
                <==> y[k].address@ == address) by {
                assert(x[k] == a[k + 1]);
            }
            assert forall|k: int|
                0 <= k < x.len() && (#[trigger] x[k]).address@ == address implies x[k].wallet
                == y[k].wallet by {
                assert(x[k] == a[k + 1]);
            }
            lemma_find_wallet_agrees(x, y, address);
        }
    }
}

/// An entry added at the end is found only where none stood before it.
pub proof fn lemma_find_wallet_push(
    entries: Seq<WalletEntry>,
    entry: WalletEntry,
    address: Seq<char>,
)
    ensures
        spec_find_wallet(entries.push(entry), address) == (match spec_find_wallet(
            entries,
            address,
        ) {
            Some(wallet) => Some(wallet),
            None => if entry.address@ == address {
                Some(entry.wallet)
            } else {
                None
            },
        }),
    decreases entries.len(),
{
    let longer = entries.push(entry);
    if entries.len() == 0 {
        assert(longer[0] == entry);
        assert(longer.skip(1).len() == 0);
        assert(spec_find_wallet(longer.skip(1), address) is None);
        assert(spec_find_wallet(entries, address) is None);
    } else {
        assert(longer[0] == entries[0]);
        assert(longer.skip(1) =~= entries.skip(1).push(entry));
        lemma_find_wallet_push(entries.skip(1), entry, address);
        if entries[0].address@ != address {
            assert(spec_find_wallet(longer, address) == spec_find_wallet(longer.skip(1), address));
            assert(spec_find_wallet(entries, address) == spec_find_wallet(
                entries.skip(1),
                address,
            ));
        }
    }
}

impl Wallets {
    /// The wallets in the order in which they came.
    pub closed spec fn spec_entries(&self) -> Seq<WalletEntry> {
        self.wallets@
    }

    /// Whether a wallet stands under `address`.
    pub open spec fn spec_has(&self, address: Seq<char>) -> bool {
        exists|i: int|
            0 <= i < self.spec_entries().len() && (#[trigger] self.spec_entries()[i]).address@
                == address
    }

    /// The wallet under `address`: that of the first entry with it.
    pub open spec fn spec_wallet(&self, address: Seq<char>) -> Option<Wallet> {
        spec_find_wallet(self.spec_entries(), address)
    }

    /// No wallets.
    pub fn new() -> (out: Wallets)
        ensures
            out.spec_entries().len() == 0,
            spec_apart(out.spec_held()),
    {
        Wallets { wallets: Vec::new() }
    }

    /// The first place of a wallet under `address`.
    fn find(&self, address: &str) -> (out: Option<usize>)
        ensures
            match out {
                Some(i) => i < self.wallets@.len() && self.wallets@[i as int].address@ == address@
                    && self.spec_wallet(address@) == Some(self.wallets@[i as int].wallet)
                    && forall|j: int|
                    0 <= j < i ==> (#[trigger] self.wallets@[j]).address@ != address@,
                None => !self.spec_has(address@) && self.spec_wallet(address@) is None,
            },
    {
        let mut i: usize = 0;
        while i < self.wallets.len()
            invariant
                i <= self.wallets@.len(),
                forall|j: int| 0 <= j < i ==> (#[trigger] self.wallets@[j]).address@ != address@,
            decreases self.wallets@.len() - i,
        {
            if text_eq(self.wallets[i].address.as_str(), address) {
                proof {
                    lemma_find_wallet_at(self.wallets@, address@, i as int);
                }
                return Some(i);
            }
            i += 1;
        }
        proof {
            lemma_find_wallet_some(self.wallets@, address@);
        }
        None
    }

    /// Puts `wallet` under the address of its public key, in the place of a
    /// wallet that stood there or else behind the others, and returns the
    /// address. What stands under other addresses stays.
    pub fn insert(&mut self, wallet: Wallet) -> (address: String)
        ensures
            address@ == spec_wallet_address(wallet),
            final(self).spec_wallet(address@) == Some(wallet),
            final(self).spec_has(address@),
            forall|other: Seq<char>|
                other != address@ ==> #[trigger] final(self).spec_wallet(other) == old(
                    self,
                ).spec_wallet(other),
            forall|other: Seq<char>|
                old(self).spec_has(other) ==> #[trigger] final(self).spec_has(other),
            spec_addresses(final(self).spec_entries()) == (if old(self).spec_has(address@) {
                spec_addresses(old(self).spec_entries())
            } else {
                spec_addresses(old(self).spec_entries()).push(address@)
            }),
            final(self).spec_held() == spec_put_held(
                old(self).spec_held(),
                HeldWallet {
                    address: address@,
                    pkcs8: wallet.spec_pkcs8(),
                    public_key: wallet.spec_key(),
                },
            ),
            spec_apart(old(self).spec_held()) ==> spec_apart(final(self).spec_held()),
    {
        let address = wallet.get_address();
        let entry = WalletEntry { address: address.clone(), wallet };
        let ghost before = self.wallets@;
        let ghost held = self.spec_held();
        match self.find(address.as_str()) {
            Some(i) => {
                proof {
                    assert forall|j: int| 0 <= j < i implies (#[trigger] held[j]).address
                        != entry@.address by {
                        assert(held[j] == before[j]@);
                    }
                    assert(held[i as int] == before[i as int]@);
                    lemma_put_held_at(held, entry@, i as int);
                }
                self.wallets.set(i, entry);
                proof {
                    assert(self.spec_held() =~= held.update(i as int, entry@));
                    let after = self.wallets@;
                    assert(after[i as int].address@ == address@);
                    assert forall|j: int| 0 <= j < i implies (#[trigger] after[j]).address@
                        != address@ by {
                        assert(after[j] == before[j]);
                    }
                    lemma_find_wallet_at(after, address@, i as int);
                    assert forall|other: Seq<char>| other != address@ implies #[trigger] self.spec_wallet(
                        other,
                    ) == old(self).spec_wallet(other) by {
                        lemma_find_wallet_agrees(after, before, other);
                    }
                    assert(spec_addresses(after) =~= spec_addresses(before));
                }
            },
            None => {
                proof {
                    assert forall|j: int| 0 <= j < held.len() implies (#[trigger] held[j]).address
                        != entry@.address by {
                        assert(held[j] == before[j]@);
                        assert(self.spec_entries()[j].address@ != address@);
                    }
                    lemma_put_held_new(held, entry@);
                }
                self.wallets.push(entry);
                proof {
                    assert(self.spec_held() =~= held.push(entry@));
                    let after = self.wallets@;
                    assert(after[before.len() as int].address@ == address@);
                    lemma_find_wallet_push(before, entry, address@);
                    assert forall|other: Seq<char>| other != address@ implies #[trigger] self.spec_wallet(
                        other,
                    ) == old(self).spec_wallet(other) by {
                        lemma_find_wallet_push(before, entry, other);
                    }
                    assert(spec_addresses(after) =~= spec_addresses(before).push(address@));
                }
            },
        }
        proof {
            if spec_apart(held) {
                lemma_put_held_keeps_apart(held, entry@);
            }
            lemma_find_wallet_some(self.wallets@, address@);
            assert(self.spec_has(address@));
            assert forall|other: Seq<char>| old(self).spec_has(other) implies #[trigger] self.spec_has(
                other,
            ) by {
                if other != address@ {
                    lemma_find_wallet_some(before, other);
                    assert(old(self).spec_wallet(other) is Some);
                    assert(self.spec_wallet(other) == old(self).spec_wallet(other));
                    lemma_find_wallet_some(self.wallets@, other);
                }
            }
        }
        address
    }

    /// Makes a wallet with a fresh key pair, keeps it and returns its
    /// address; `Crypto` where no key pair could be made.
    pub fn create_wallet(&mut self) -> (out: Result<String, BlockchainError>)
        ensures
            out is Ok ==> final(self).spec_has(out->Ok_0@) && final(self).spec_wallet(out->Ok_0@)
                is Some && final(self).spec_wallet(out->Ok_0@)->Some_0.wf() && out->Ok_0@
                == spec_wallet_address(final(self).spec_wallet(out->Ok_0@)->Some_0),
            out is Ok ==> forall|other: Seq<char>|
                other != out->Ok_0@ ==> #[trigger] final(self).spec_wallet(other) == old(
                    self,
                ).spec_wallet(other),
            out is Err ==> out->Err_0 is Crypto && final(self).spec_entries() == old(self).spec_entries(),
            forall|other: Seq<char>|
                old(self).spec_has(other) ==> #[trigger] final(self).spec_has(other),
            spec_apart(old(self).spec_held()) ==> spec_apart(final(self).spec_held()),
    {
        let wallet = match Wallet::new() {
            Ok(wallet) => wallet,
            Err(e) => { return Err(e); },
        };
        Ok(self.insert(wallet))
    }

    /// The addresses, in the order in which they came.
    pub fn get_addresses(&self) -> (out: Vec<String>)
        ensures
            out@.len() == self.spec_entries().len(),
            forall|i: int|
                0 <= i < out@.len() ==> (#[trigger] out@[i])@ == self.spec_entries()[i].address@,
    {
        let mut addresses: Vec<String> = Vec::new();
        let mut i: usize = 0;
        while i < self.wallets.len()
            invariant
                i <= self.wallets@.len(),
                addresses@.len() == i,
                forall|j: int|
                    0 <= j < i ==> (#[trigger] addresses@[j])@ == self.wallets@[j].address@,
            decreases self.wallets@.len() - i,
        {
            addresses.push(self.wallets[i].address.clone());
            i += 1;
        }
        addresses
    }

    /// The wallet under `address`.
    pub fn get_wallet(&self, address: &str) -> (out: Option<&Wallet>)
        ensures
            out is Some <==> self.spec_has(address@),
            match self.spec_wallet(address@) {
                Some(wallet) => out is Some && *out->Some_0 == wallet,
                None => out is None,
            },
    {
        match self.find(address) {
            Some(i) => {
                assert(self.spec_entries()[i as int].address@ == address@);
                Some(&self.wallets[i].wallet)
            },
            None => None,
        }
    }
}

impl Default for Wallets {
    fn default() -> (out: Self)
        ensures
            out.spec_entries().len() == 0,
    {
        Wallets::new()
    }
}

} // verus!

verus! {

/// The list after a wallet is put under its address: in the place of the
/// first wallet that stood there, or last.
pub open spec fn spec_put_held(entries: Seq<HeldWallet>, entry: HeldWallet) -> Seq<HeldWallet>
    decreases entries.len(),
{
    if entries.len() == 0 {
        seq![entry]
    } else if entries[0].address == entry.address {
        seq![entry] + entries.skip(1)
    } else {
        seq![entries[0]] + spec_put_held(entries.skip(1), entry)
    }
}

/// The wallets of a list, each put under its address in turn: of two under
/// one address the later stays, in the place of the earlier.
pub open spec fn spec_keyed(entries: Seq<HeldWallet>) -> Seq<HeldWallet>
    decreases entries.len(),
{
    if entries.len() == 0 {
        Seq::empty()
    } else {
        spec_put_held(spec_keyed(entries.drop_last()), entries.last())
    }
}

/// Whether no two wallets of the list stand under one address.
pub open spec fn spec_apart(entries: Seq<HeldWallet>) -> bool {
    forall|i: int, j: int|
        0 <= i < j < entries.len() ==> (#[trigger] entries[i]).address != (
        #[trigger] entries[j]).address
}

/// A wallet put under an address that the list holds takes the first place
/// under that address.
pub proof fn lemma_put_held_at(entries: Seq<HeldWallet>, entry: HeldWallet, i: int)
    requires
        0 <= i < entries.len(),
        entries[i].address == entry.address,
        forall|j: int| 0 <= j < i ==> (#[trigger] entries[j]).address != entry.address,
    ensures
        spec_put_held(entries, entry) == entries.update(i, entry),
    decreases i,
{
    if i == 0 {
        assert(seq![entry] + entries.skip(1) =~= entries.update(0, entry));
    } else {
        let rest = entries.skip(1);
        assert(entries[0].address != entry.address);
        assert(rest[i - 1] == entries[i]);
        assert forall|j: int| 0 <= j < i - 1 implies (#[trigger] rest[j]).address
            != entry.address by {
            assert(rest[j] == entries[j + 1]);
        }
        lemma_put_held_at(rest, entry, i - 1);
        assert(seq![entries[0]] + rest.update(i - 1, entry) =~= entries.update(i, entry));
    }
}

/// A wallet put under an address that the list does not hold comes last.
pub proof fn lemma_put_held_new(entries: Seq<HeldWallet>, entry: HeldWallet)
    requires
        forall|j: int| 0 <= j < entries.len() ==> (#[trigger] entries[j]).address != entry.address,
    ensures
        spec_put_held(entries, entry) == entries.push(entry),
    decreases entries.len(),
{
    if entries.len() == 0 {
        assert(seq![entry] =~= entries.push(entry));
    } else {
        let rest = entries.skip(1);
        assert(entries[0].address != entry.address);
        assert forall|j: int| 0 <= j < rest.len() implies (#[trigger] rest[j]).address
            != entry.address by {
            assert(rest[j] == entries[j + 1]);
        }
        lemma_put_held_new(rest, entry);
        assert(seq![entries[0]] + rest.push(entry) =~= entries.push(entry));
    }
}

/// Putting a wallet keeps the wallets under addresses of their own.
pub proof fn lemma_put_held_keeps_apart(entries: Seq<HeldWallet>, entry: HeldWallet)
    requires
        spec_apart(entries),
    ensures
        spec_apart(spec_put_held(entries, entry)),
{
    if exists|i: int| 0 <= i < entries.len() && (#[trigger] entries[i]).address == entry.address {
        let k = choose|i: int|
            0 <= i < entries.len() && (#[trigger] entries[i]).address == entry.address;
        assert forall|j: int| 0 <= j < k implies (#[trigger] entries[j]).address
            != entry.address by {
            assert(entries[j].address != entries[k].address);
        }
        lemma_put_held_at(entries, entry, k);
        let after = entries.update(k, entry);
        assert forall|i: int, j: int| 0 <= i < j < after.len() implies (#[trigger] after[i]).address
            != (#[trigger] after[j]).address by {
            assert(after[i].address == entries[i].address);
            assert(after[j].address == entries[j].address);
        }
    } else {
        lemma_put_held_new(entries, entry);
        let after = entries.push(entry);
        assert forall|i: int, j: int| 0 <= i < j < after.len() implies (#[trigger] after[i]).address
            != (#[trigger] after[j]).address by {
            if j < entries.len() {
                assert(after[i] == entries[i] && after[j] == entries[j]);
            } else {
                assert(after[i] == entries[i]);
            }
        }
    }
}

/// Wallets put in turn stand under addresses of their own.
pub proof fn lemma_keyed_is_apart(entries: Seq<HeldWallet>)
    ensures
        spec_apart(spec_keyed(entries)),
    decreases entries.len(),
{
    if entries.len() > 0 {
        lemma_keyed_is_apart(entries.drop_last());
        lemma_put_held_keeps_apart(spec_keyed(entries.drop_last()), entries.last());
    }
}

/// Wallets that stand under addresses of their own stay as they are when
/// they are put in turn.
pub proof fn lemma_keyed_of_apart(entries: Seq<HeldWallet>)
    requires
        spec_apart(entries),
    ensures
        spec_keyed(entries) == entries,
    decreases entries.len(),
{
    if entries.len() > 0 {
        let front = entries.drop_last();
        assert forall|i: int, j: int| 0 <= i < j < front.len() implies (#[trigger] front[i]).address
            != (#[trigger] front[j]).address by {
            assert(front[i] == entries[i] && front[j] == entries[j]);
        }
        lemma_keyed_of_apart(front);
        assert forall|j: int| 0 <= j < front.len() implies (#[trigger] front[j]).address
            != entries.last().address by {
            assert(front[j] == entries[j]);
            assert(entries[j].address != entries[entries.len() - 1].address);
        }
        lemma_put_held_new(front, entries.last());
        assert(front.push(entries.last()) =~= entries);
    } else {
        assert(spec_keyed(entries) =~= entries);
    }
}

/// What the bytes of the wallets hold: the wallets of the list that is read
/// from them, each put under its address in turn; `None` where no such list
/// can be read.
pub open spec fn spec_stored_wallets(bytes: Seq<u8>) -> Option<Seq<HeldWallet>> {
    match spec_parse_list(bytes, HeldWallet::parser()) {
        Some((entries, rest)) => Some(spec_keyed(entries)),
        None => None,
    }
}

/// The wallets come back from their bytes: wallets that stand under
/// addresses of their own are read from their encoding as they were
/// written.
pub proof fn lemma_stored_wallets_come_back(entries: Seq<HeldWallet>)
    requires
        entries_wf(entries),
        spec_apart(entries),
    ensures
        spec_stored_wallets(spec_encode_list(entries, HeldWallet::encoder())) == Some(entries),
{
    let encoding = spec_encode_list(entries, HeldWallet::encoder());
    lemma_entries_round_trip(entries, Seq::empty());
    assert(encoding + Seq::<u8>::empty() =~= encoding);
    lemma_keyed_of_apart(entries);
}

impl Wallets {
    /// What the wallets stand for, in the order in which they came.
    pub open spec fn spec_held(&self) -> Seq<HeldWallet> {
        entry_models(self.spec_entries())
    }

    /// Puts a wallet under the address given with it, in the place of the
    /// first wallet that stood there, or last.
    fn put(&mut self, entry: WalletEntry)
        ensures
            final(self).spec_held() == spec_put_held(old(self).spec_held(), entry@),
    {
        let ghost before = self.spec_held();
        match self.find(entry.address.as_str()) {
            Some(i) => {
                proof {
                    assert forall|j: int| 0 <= j < i implies (#[trigger] before[j]).address
                        != entry@.address by {
                        assert(before[j] == self.wallets@[j]@);
                    }
                    assert(before[i as int] == self.wallets@[i as int]@);
                    lemma_put_held_at(before, entry@, i as int);
                }
                self.wallets.set(i, entry);
                assert(self.spec_held() =~= before.update(i as int, entry@));
            },
            None => {
                proof {
                    assert forall|j: int| 0 <= j < before.len() implies (#[trigger] before[j]).address
                        != entry@.address by {
                        assert(before[j] == self.wallets@[j]@);
                        assert(self.spec_entries()[j].address@ != entry.address@);
                    }
                    lemma_put_held_new(before, entry@);
                }
                self.wallets.push(entry);
                assert(self.spec_held() =~= before.push(entry@));
            },
        }
    }

    /// The bytes of the wallets: their number, then each with its address,
    /// its key document and its public key.
    pub fn encoded(&self) -> (out: Vec<u8>)
        ensures
            out@ == spec_encode_list(self.spec_held(), HeldWallet::encoder()),
            spec_parse_list(out@, HeldWallet::parser()) == Some(
                (self.spec_held(), Seq::<u8>::empty()),
            ),
            spec_apart(self.spec_held()) ==> spec_stored_wallets(out@) == Some(self.spec_held()),
    {
        let mut out: Vec<u8> = Vec::new();
        encode_entries(self.wallets.as_slice(), &mut out);
        proof {
            let held = self.spec_held();
            assert(out@ =~= spec_encode_list(held, HeldWallet::encoder()));
        }
        self.note_well_formed();
        proof {
            lemma_entries_round_trip(self.spec_held(), Seq::empty());
            assert(out@ + Seq::<u8>::empty() =~= out@);
            if spec_apart(self.spec_held()) {
                lemma_keyed_of_apart(self.spec_held());
            }
        }
        out
    }

    /// Every wallet in memory can be held in memory.
    fn note_well_formed(&self)
        ensures
            entries_wf(self.spec_held()),
    {
        let count = self.wallets.len();
        let mut i: usize = 0;
        while i < count
            invariant
                i <= count,
                count == self.wallets@.len(),
                forall|k: int| 0 <= k < i ==> (#[trigger] self.wallets@[k])@.wf(),
            decreases count - i,
        {
            let _ = self.wallets[i].address.as_str().as_bytes().len();
            let _ = self.wallets[i].wallet.get_pkcs8().len();
            let _ = self.wallets[i].wallet.get_public_key().len();
            i += 1;
        }
        assert(forall|k: int|
            0 <= k < self.spec_held().len() ==> self.spec_held()[k] == self.wallets@[k]@);
    }

    /// Takes the wallets that the file holds in the place of those that are
    /// there. Nothing changes where there is no file, or where its bytes hold
    /// no list of wallets.
    pub fn load_from_file(&mut self, contents: Option<&[u8]>)
        ensures
            final(self).spec_held() == (match contents {
                Some(bytes) => match spec_stored_wallets(bytes@) {
                    Some(held) => held,
                    None => old(self).spec_held(),
                },
                None => old(self).spec_held(),
            }),
    {
        match contents {
            Some(bytes) => {
                match Wallets::decode(bytes) {
                    Ok(wallets) => { self.wallets = wallets.wallets; },
                    Err(_) => {},
                }
            },
            None => {},
        }
    }

    /// The wallets that the bytes hold; see `spec_stored_wallets`. `Wallet`
    /// where the bytes hold no list of wallets.
    pub fn decode(bytes: &[u8]) -> (out: Result<Wallets, BlockchainError>)
        ensures
            match spec_stored_wallets(bytes@) {
                Some(held) => out is Ok && out->Ok_0.spec_held() == held,
                None => out is Err && out->Err_0 is Wallet,
            },
            out is Ok ==> spec_apart(out->Ok_0.spec_held()),
    {
        assert(bytes@.skip(0) =~= bytes@);
        let (entries, _) = match decode_entries(bytes, 0) {
            Some(found) => found,
            None => {
                return Err(BlockchainError::Wallet(owned("Failed to deserialize wallets")));
            },
        };
        let ghost all = entry_models(entries@);
        let mut wallets = Wallets::new();
        let mut i: usize = 0;
        proof {
            assert(all.take(0) =~= Seq::<HeldWallet>::empty());
            assert(wallets.spec_held() =~= Seq::<HeldWallet>::empty());
        }
        while i < entries.len()
            invariant
                i <= entries@.len(),
                all == entry_models(entries@),
                all.len() == entries@.len(),
                wallets.spec_held() == spec_keyed(all.take(i as int)),
            decreases entries@.len() - i,
        {
            let entry = WalletEntry {
                address: entries[i].address.clone(),
                wallet: entries[i].wallet.copy(),
            };
            proof {
                assert(entry@ == all[i as int]);
                assert(all.take(i + 1).drop_last() =~= all.take(i as int));
                assert(all.take(i + 1).last() == all[i as int]);
            }
            wallets.put(entry);
            i += 1;
        }
        proof {
            assert(all.take(all.len() as int) =~= all);
            lemma_keyed_is_apart(all);
        }
        Ok(wallets)
    }
}

} // verus!
