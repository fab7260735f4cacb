//! The wallets of a node as bytes: each wallet under its address, with its
//! key document and its public key.

use crate::utils::serialization::{
    decode_bytes, decode_text, decode_u64, encode_bytes, encode_text, encode_u64,
    lemma_bytes_round_trip, lemma_encode_items_step, lemma_list_round_trip,
    lemma_parse_items_fails_on, lemma_text_round_trip, spec_encode_bytes, spec_encode_items,
    spec_encode_list, spec_encode_text, spec_parse_bytes, spec_parse_items, spec_parse_list,
    spec_parse_text, spec_parse_u64,
};
use crate::wallet::wallet::Wallet;
use crate::wallet::wallets::WalletEntry;
use vstd::prelude::*;

verus! {

/// What a wallet under its address stands for.
pub struct HeldWallet {
    pub address: Seq<char>,
    pub pkcs8: Seq<u8>,
    pub public_key: Seq<u8>,
}

impl View for WalletEntry {
    type V = HeldWallet;

    open spec fn view(&self) -> HeldWallet {
        HeldWallet {
            address: self.address@,
            pkcs8: self.wallet.spec_pkcs8(),
            public_key: self.wallet.spec_key(),
        }
    }
}

/// What the wallets of a list stand for.
pub open spec fn entry_models(entries: Seq<WalletEntry>) -> Seq<HeldWallet> {
    entries.map_values(|e: WalletEntry| e@)
}

impl HeldWallet {
    /// Address, key document and public key can be held in memory.
    pub open spec fn wf(self) -> bool {
        vstd::utf8::encode_utf8(self.address).len() <= usize::MAX && self.pkcs8.len()
            <= usize::MAX && self.public_key.len() <= usize::MAX
    }

    /// The encoding: address, key document, public key.
    pub open spec fn encoding(self) -> Seq<u8> {
        spec_encode_text(self.address) + spec_encode_bytes(self.pkcs8) + spec_encode_bytes(
            self.public_key,
        )
    }

    /// Reads a wallet from the front of `bytes`.
    pub open spec fn parse(bytes: Seq<u8>) -> Option<(HeldWallet, Seq<u8>)> {
        match spec_parse_text(bytes) {
            Some((address, r1)) => match spec_parse_bytes(r1) {
                Some((pkcs8, r2)) => match spec_parse_bytes(r2) {
                    Some((public_key, r3)) => Some((HeldWallet { address, pkcs8, public_key }, r3)),
                    None => None,
                },
                None => None,
            },
            None => None,
        }
    }

    /// Reading an encoded wallet gives it back.
    pub proof fn lemma_round_trip(self, rest: Seq<u8>)
        requires
            self.wf(),
        ensures
            HeldWallet::parse(self.encoding() + rest) == Some((self, rest)),
    {
        let e1 = spec_encode_text(self.address);
        let e2 = spec_encode_bytes(self.pkcs8);
        let e3 = spec_encode_bytes(self.public_key);
        let r2 = e3 + rest;
        let r1 = e2 + r2;
        assert(self.encoding() + rest =~= e1 + r1);
        lemma_text_round_trip(self.address, r1);
        lemma_bytes_round_trip(self.pkcs8, r2);
        lemma_bytes_round_trip(self.public_key, rest);
    }

    /// The way wallets are written in a list.
    pub open spec fn encoder() -> spec_fn(HeldWallet) -> Seq<u8> {
        |m: HeldWallet| m.encoding()
    }

    /// The way wallets are read from a list.
    pub open spec fn parser() -> spec_fn(Seq<u8>) -> Option<(HeldWallet, Seq<u8>)> {
        |bytes: Seq<u8>| HeldWallet::parse(bytes)
    }
}

/// Every wallet of the list can be held in memory, and so can the list.
pub open spec fn entries_wf(entries: Seq<HeldWallet>) -> bool {
    entries.len() <= usize::MAX && forall|i: int| 0 <= i < entries.len() ==> entries[i].wf()
}

/// Reading an encoded list of wallets gives it back.
pub proof fn lemma_entries_round_trip(entries: Seq<HeldWallet>, rest: Seq<u8>)
    requires
        entries_wf(entries),
    ensures
        spec_parse_list(spec_encode_list(entries, HeldWallet::encoder()) + rest, HeldWallet::parser())
            == Some((entries, rest)),
{
    assert forall|i: int, r: Seq<u8>| 0 <= i < entries.len() implies #[trigger] (
    HeldWallet::parser())((HeldWallet::encoder())(entries[i]) + r) == Some((entries[i], r)) by {
        entries[i].lemma_round_trip(r);
    }
    lemma_list_round_trip(entries, rest, HeldWallet::encoder(), HeldWallet::parser());
}

/// Appends the encoding of a wallet under its address to `out`.
pub fn encode_entry(entry: &WalletEntry, out: &mut Vec<u8>)
    ensures
        final(out)@ == old(out)@ + entry@.encoding(),
{
    let ghost start = out@;
    encode_text(entry.address.as_str(), out);
    encode_bytes(entry.wallet.get_pkcs8(), out);
    encode_bytes(entry.wallet.get_public_key(), out);
    assert(out@ =~= start + entry@.encoding());
}

/// Reads a wallet under its address at `pos`.
pub fn decode_entry(bytes: &[u8], pos: usize) -> (out: Option<(WalletEntry, usize)>)
    requires
        pos <= bytes@.len(),
    ensures
        match HeldWallet::parse(bytes@.skip(pos as int)) {
            Some((value, rest)) => out is Some && out->Some_0.0@ == value && pos <= out->Some_0.1
                <= bytes@.len() && bytes@.skip(out->Some_0.1 as int) == rest,
            None => out is None,
        },
{
    let (address, at) = match decode_text(bytes, pos) {
        Some(found) => found,
        None => { return None; },
    };
    let (pkcs8, at) = match decode_bytes(bytes, at) {
        Some(found) => found,
        None => { return None; },
    };
    let (public_key, at) = match decode_bytes(bytes, at) {
        Some(found) => found,
        None => { return None; },
    };
    Some((WalletEntry { address, wallet: Wallet::from_parts(pkcs8, public_key) }, at))
}

/// Appends the encoding of a list of wallets to `out`.
pub fn encode_entries(items: &[WalletEntry], out: &mut Vec<u8>)
    ensures
        final(out)@ == old(out)@ + spec_encode_list(entry_models(items@), HeldWallet::encoder()),
{
    let ghost start = out@;
    let ghost models = entry_models(items@);
    encode_u64(items.len() as u64, out);
    let ghost head = out@;
    let mut i: usize = 0;
    assert(spec_encode_items(models.take(0), HeldWallet::encoder()) =~= Seq::<u8>::empty());
    assert(head + Seq::<u8>::empty() =~= head);
    while i < items.len()
        invariant
            i <= items@.len(),
            models == entry_models(items@),
            models.len() == items@.len(),
            out@ == head + spec_encode_items(models.take(i as int), HeldWallet::encoder()),
        decreases items@.len() - i,
    {
        let ghost before = out@;
        encode_entry(&items[i], out);
        proof {
            lemma_encode_items_step(models, i as int, HeldWallet::encoder());
            assert(models[i as int] == items@[i as int]@);
            assert(out@ =~= head + spec_encode_items(models.take(i + 1), HeldWallet::encoder()));
        }
        i += 1;
    }
    proof {
        assert(models.take(models.len() as int) =~= models);
        assert(out@ =~= start + spec_encode_list(models, HeldWallet::encoder()));
    }
}

/// Reads a list of wallets at `pos`.
pub fn decode_entries(bytes: &[u8], pos: usize) -> (out: Option<(Vec<WalletEntry>, usize)>)
    requires
        pos <= bytes@.len(),
    ensures
        match spec_parse_list(bytes@.skip(pos as int), HeldWallet::parser()) {
            Some((value, rest)) => out is Some && entry_models(out->Some_0.0@) == value && pos
                <= out->Some_0.1 <= bytes@.len() && bytes@.skip(out->Some_0.1 as int) == rest,
            None => out is None,
        },
{
    let (count, start) = match decode_u64(bytes, pos) {
        Some(found) => found,
        None => { return None; },
    };
    let ghost tail = bytes@.skip(start as int);
    let mut items: Vec<WalletEntry> = Vec::new();
    let mut at: usize = start;
    let mut i: u64 = 0;
    assert(entry_models(items@) =~= Seq::<HeldWallet>::empty());
    while i < count
        invariant
            i <= count,
            pos <= start <= at <= bytes@.len(),
            tail == bytes@.skip(start as int),
            spec_parse_u64(bytes@.skip(pos as int)) == Some((count, tail)),
            items@.len() == i,
            spec_parse_items(tail, i as nat, HeldWallet::parser()) == Some(
                (entry_models(items@), bytes@.skip(at as int)),
            ),
        decreases count - i,
    {
        match decode_entry(bytes, at) {
            Some((item, next)) => {
                let ghost before = items@;
                items.push(item);
                proof {
                    let have = entry_models(items@);
                    let want = entry_models(before).push(item@);
                    assert(have =~= want);
                }
                at = next;
            },
            None => {
                proof {
                    assert((HeldWallet::parser())(bytes@.skip(at as int)) is None);
                    assert(spec_parse_items(tail, (i + 1) as nat, HeldWallet::parser()) is None);
                    lemma_parse_items_fails_on(
                        tail,
                        (i + 1) as nat,
                        count as nat,
                        HeldWallet::parser(),
                    );
                }
                return None;
            },
        }
        i += 1;
    }
    Some((items, at))
}

} // verus!
