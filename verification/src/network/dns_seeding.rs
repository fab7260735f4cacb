//! The names of the seeds from which a node learns of peers.

use crate::chain::blockchain::text_eq;
use crate::error::{decimal_text, owned, spec_decimal, BlockchainError};
use crate::utils::serialization::text_views;
use vstd::prelude::*;
use vstd::string::*;

verus! {

/// Whether `needle` stands somewhere in `text`.
pub open spec fn spec_text_contains(text: Seq<char>, needle: Seq<char>) -> bool {
    exists|i: int|
        0 <= i && i + needle.len() <= text.len() && #[trigger] text.subrange(
            i,
            i + needle.len(),
        ) == needle
}

/// Calls `str::contains` with a text as the pattern.
#[verifier::external_body]
fn text_contains(text: &str, needle: &str) -> (out: bool)
    ensures
        out == spec_text_contains(text@, needle@),
{
    text.contains(needle)
}

/// Whether a seed is a name that only a node under development uses.
pub open spec fn spec_development_seed(seed: Seq<char>) -> bool {
    spec_text_contains(seed, "localhost"@) || spec_text_contains(seed, "127.0.0.1"@)
        || spec_text_contains(seed, "architect-chain.org"@)
}

/// The seeds of a node and the limits of a lookup.
pub struct DnsSeeder {
    dns_seeds: Vec<String>,
    default_port: u16,
    resolution_timeout_secs: u64,
    max_addresses: usize,
}

/// The list without every text that is `text`.
pub open spec fn spec_without_text(texts: Seq<Seq<char>>, text: Seq<char>) -> Seq<Seq<char>>
    decreases texts.len(),
{
    if texts.len() == 0 {
        Seq::empty()
    } else {
        let before = spec_without_text(texts.drop_last(), text);
        if texts.last() != text {
            before.push(texts.last())
        } else {
            before
        }
    }
}

impl DnsSeeder {
    /// The seeds.
    pub closed spec fn spec_seeds(&self) -> Seq<Seq<char>> {
        text_views(self.dns_seeds@)
    }

    /// The port.
    pub closed spec fn spec_port(&self) -> u16 {
        self.default_port
    }

    /// The seconds that a lookup may take.
    pub closed spec fn spec_timeout_secs(&self) -> u64 {
        self.resolution_timeout_secs
    }

    /// The largest number of addresses that a lookup returns.
    pub closed spec fn spec_max_addresses(&self) -> usize {
        self.max_addresses
    }

    /// The seeds that a node starts with.
    pub open spec fn spec_default_seeds() -> Seq<Seq<char>> {
        seq![
            "seed1.architect-chain.org"@,
            "seed2.architect-chain.org"@,
            "seed3.architect-chain.org"@,
            "dnsseed.architect-chain.org"@,
        ]
    }

    /// The default seeds, a lookup of at most ten seconds and a hundred
    /// addresses.
    pub fn new(default_port: u16) -> (out: Self)
        ensures
            out.spec_seeds() == Self::spec_default_seeds(),
            out.spec_port() == default_port,
            out.spec_timeout_secs() == 10,
            out.spec_max_addresses() == 100,
    {
        Self {
            dns_seeds: Self::default_dns_seeds(),
            default_port,
            resolution_timeout_secs: 10,
            max_addresses: 100,
        }
    }

    /// The given seeds, a lookup of at most ten seconds and a hundred
    /// addresses.
    pub fn with_seeds(dns_seeds: Vec<String>, default_port: u16) -> (out: Self)
        ensures
            out.spec_seeds() == text_views(dns_seeds@),
            out.spec_port() == default_port,
            out.spec_timeout_secs() == 10,
            out.spec_max_addresses() == 100,
    {
        Self { dns_seeds, default_port, resolution_timeout_secs: 10, max_addresses: 100 }
    }

    /// The same seeder with another limit on the time of a lookup.
    pub fn with_timeout(self, timeout_secs: u64) -> (out: Self)
        ensures
            out.spec_seeds() == self.spec_seeds(),
            out.spec_port() == self.spec_port(),
            out.spec_timeout_secs() == timeout_secs,
            out.spec_max_addresses() == self.spec_max_addresses(),
    {
        Self {
            dns_seeds: self.dns_seeds,
            default_port: self.default_port,
            resolution_timeout_secs: timeout_secs,
            max_addresses: self.max_addresses,
        }
    }

    /// The same seeder with another limit on the number of addresses.
    pub fn with_max_addresses(self, max_addresses: usize) -> (out: Self)
        ensures
            out.spec_seeds() == self.spec_seeds(),
            out.spec_port() == self.spec_port(),
            out.spec_timeout_secs() == self.spec_timeout_secs(),
            out.spec_max_addresses() == max_addresses,
    {
        Self {
            dns_seeds: self.dns_seeds,
            default_port: self.default_port,
            resolution_timeout_secs: self.resolution_timeout_secs,
            max_addresses,
        }
    }

    /// The seeds that a node starts with.
    fn default_dns_seeds() -> (out: Vec<String>)
        ensures
            text_views(out@) == Self::spec_default_seeds(),
    {
        let mut seeds: Vec<String> = Vec::new();
        seeds.push(owned("seed1.architect-chain.org"));
        seeds.push(owned("seed2.architect-chain.org"));
        seeds.push(owned("seed3.architect-chain.org"));
        seeds.push(owned("dnsseed.architect-chain.org"));
        assert(text_views(seeds@) =~= Self::spec_default_seeds());
        seeds
    }

    /// Whether one of the seeds is a name that only a node under development
    /// uses.
    pub open spec fn spec_development(&self) -> bool {
        exists|i: int|
            0 <= i < self.spec_seeds().len() && spec_development_seed(
                #[trigger] self.spec_seeds()[i],
            )
    }

    /// Whether one of the seeds is a name that only a node under development
    /// uses.
    pub fn is_development_mode(&self) -> (out: bool)
        ensures
            out == self.spec_development(),
    {
        let mut i: usize = 0;
        while i < self.dns_seeds.len()
            invariant
                i <= self.dns_seeds@.len(),
                forall|j: int|
                    0 <= j < i ==> !spec_development_seed(#[trigger] self.spec_seeds()[j]),
            decreases self.dns_seeds@.len() - i,
        {
            let seed = self.dns_seeds[i].as_str();
            assert(self.spec_seeds()[i as int] == seed@);
            if text_contains(seed, "localhost") || text_contains(seed, "127.0.0.1")
                || text_contains(seed, "architect-chain.org") {
                return true;
            }
            i += 1;
        }
        false
    }

    /// Adds a seed unless it is there.
    pub fn add_seed(&mut self, seed: String)
        ensures
            final(self).spec_seeds() == (if old(self).spec_seeds().contains(seed@) {
                old(self).spec_seeds()
            } else {
                old(self).spec_seeds().push(seed@)
            }),
            final(self).spec_port() == old(self).spec_port(),
            final(self).spec_timeout_secs() == old(self).spec_timeout_secs(),
            final(self).spec_max_addresses() == old(self).spec_max_addresses(),
    {
        let ghost before = self.spec_seeds();
        let mut i: usize = 0;
        while i < self.dns_seeds.len()
            invariant
                i <= self.dns_seeds@.len(),
                self.spec_seeds() == before,
                self.dns_seeds@ == old(self).dns_seeds@,
                self.default_port == old(self).default_port,
                self.resolution_timeout_secs == old(self).resolution_timeout_secs,
                self.max_addresses == old(self).max_addresses,
                forall|j: int| 0 <= j < i ==> #[trigger] before[j] != seed@,
            decreases self.dns_seeds@.len() - i,
        {
            assert(before[i as int] == self.dns_seeds@[i as int]@);
            if text_eq(self.dns_seeds[i].as_str(), seed.as_str()) {
                return ;
            }
            i += 1;
        }
        self.dns_seeds.push(seed);
        assert(self.spec_seeds() =~= before.push(seed@));
    }

    /// Takes every seed that is `seed` out.
    pub fn remove_seed(&mut self, seed: &str)
        ensures
            final(self).spec_seeds() == spec_without_text(old(self).spec_seeds(), seed@),
            final(self).spec_port() == old(self).spec_port(),
            final(self).spec_timeout_secs() == old(self).spec_timeout_secs(),
            final(self).spec_max_addresses() == old(self).spec_max_addresses(),
    {
        let ghost before = self.spec_seeds();
        let mut kept: Vec<String> = Vec::new();
        let mut i: usize = 0;
        proof {
            assert(before.take(0) =~= Seq::<Seq<char>>::empty());
            assert(text_views(kept@) =~= Seq::<Seq<char>>::empty());
        }
        while i < self.dns_seeds.len()
            invariant
                i <= self.dns_seeds@.len(),
                self.spec_seeds() == before,
                before.len() == self.dns_seeds@.len(),
                self.dns_seeds@ == old(self).dns_seeds@,
                self.default_port == old(self).default_port,
                self.resolution_timeout_secs == old(self).resolution_timeout_secs,
                self.max_addresses == old(self).max_addresses,
                text_views(kept@) == spec_without_text(before.take(i as int), seed@),
            decreases self.dns_seeds@.len() - i,
        {
            proof {
                assert(before[i as int] == self.dns_seeds@[i as int]@);
                assert(before.take(i + 1).drop_last() =~= before.take(i as int));
                assert(before.take(i + 1).last() == before[i as int]);
            }
            if !text_eq(self.dns_seeds[i].as_str(), seed) {
                let ghost old_kept = kept@;
                kept.push(self.dns_seeds[i].clone());
                assert(text_views(kept@) =~= text_views(old_kept).push(before[i as int]));
            }
            i += 1;
        }
        assert(before.take(before.len() as int) =~= before);
        self.dns_seeds = kept;
    }

    /// The seeds.
    pub fn get_seeds(&self) -> (out: &[String])
        ensures
            text_views(out@) == self.spec_seeds(),
    {
        self.dns_seeds.as_slice()
    }

    /// The port that peers are taken to listen on.
    pub fn get_default_port(&self) -> (out: u16)
        ensures
            out == self.spec_port(),
    {
        self.default_port
    }

    /// The largest number of addresses that a lookup returns.
    pub fn get_max_addresses(&self) -> (out: usize)
        ensures
            out == self.spec_max_addresses(),
    {
        self.max_addresses
    }

    /// The seconds that a lookup may take.
    pub fn get_timeout_secs(&self) -> (out: u64)
        ensures
            out == self.spec_timeout_secs(),
    {
        self.resolution_timeout_secs
    }

    /// The seeder of the main network: the default seeds at port 2001.
    pub fn mainnet() -> (out: Self)
        ensures
            out.spec_seeds() == Self::spec_default_seeds(),
            out.spec_port() == 2001,
    {
        Self::new(2001)
    }

    /// The seeder of the test network: two seeds at port 12001.
    pub fn testnet() -> (out: Self)
        ensures
            out.spec_seeds() == seq![
                "testnet-seed1.architect-chain.org"@,
                "testnet-seed2.architect-chain.org"@,
            ],
            out.spec_port() == 12001,
    {
        let mut seeds: Vec<String> = Vec::new();
        seeds.push(owned("testnet-seed1.architect-chain.org"));
        seeds.push(owned("testnet-seed2.architect-chain.org"));
        assert(text_views(seeds@) =~= seq![
            "testnet-seed1.architect-chain.org"@,
            "testnet-seed2.architect-chain.org"@,
        ]);
        Self::with_seeds(seeds, 12001)
    }

    /// The seeder of a node under development: this machine at port 2001.
    pub fn development() -> (out: Self)
        ensures
            out.spec_seeds() == seq!["localhost"@, "127.0.0.1"@],
            out.spec_port() == 2001,
    {
        let mut seeds: Vec<String> = Vec::new();
        seeds.push(owned("localhost"));
        seeds.push(owned("127.0.0.1"));
        assert(text_views(seeds@) =~= seq!["localhost"@, "127.0.0.1"@]);
        Self::with_seeds(seeds, 2001)
    }
}

} // verus!

verus! {

/// A peer that a lookup found: its address, the time of the lookup in
/// milliseconds, and the seed that named it.
#[derive(Debug)]
pub struct DiscoveredPeer {
    pub address: String,
    pub discovered_at: i64,
    pub source: String,
}

/// What a discovered peer stands for.
pub struct PeerModel {
    pub address: Seq<char>,
    pub discovered_at: i64,
    pub source: Seq<char>,
}

impl View for DiscoveredPeer {
    type V = PeerModel;

    open spec fn view(&self) -> PeerModel {
        PeerModel {
            address: self.address@,
            discovered_at: self.discovered_at,
            source: self.source@,
        }
    }
}

impl Clone for DiscoveredPeer {
    fn clone(&self) -> (out: Self)
        ensures
            out@ == self@,
    {
        DiscoveredPeer {
            address: self.address.clone(),
            discovered_at: self.discovered_at,
            source: self.source.clone(),
        }
    }
}

/// What the peers of a list stand for.
pub open spec fn peer_models(peers: Seq<DiscoveredPeer>) -> Seq<PeerModel> {
    peers.map_values(|p: DiscoveredPeer| p@)
}

/// What is known of each seed's lookup: the addresses it gave, or nothing
/// where it failed.
pub open spec fn lookup_views(lookups: Seq<Option<Vec<String>>>) -> Seq<Option<Seq<Seq<char>>>> {
    lookups.map_values(
        |l: Option<Vec<String>>|
            match l {
                Some(addresses) => Some(text_views(addresses@)),
                None => None,
            },
    )
}

/// The peers that stand for a node under development: three ports of this
/// machine and two addresses of a local network at the port of the seeder.
pub open spec fn spec_simulated(port: u16, seed: Seq<char>, now: i64) -> Seq<PeerModel> {
    seq![
        PeerModel { address: "127.0.0.1:2001"@, discovered_at: now, source: seed },
        PeerModel { address: "127.0.0.1:2002"@, discovered_at: now, source: seed },
        PeerModel { address: "127.0.0.1:2003"@, discovered_at: now, source: seed },
        PeerModel {
            address: "192.168.1.100:"@ + spec_decimal(port as nat),
            discovered_at: now,
            source: seed,
        },
        PeerModel {
            address: "192.168.1.101:"@ + spec_decimal(port as nat),
            discovered_at: now,
            source: seed,
        },
    ]
}

/// The peers at the addresses that a lookup of `seed` gave.
pub open spec fn spec_looked_up(addresses: Seq<Seq<char>>, seed: Seq<char>, now: i64) -> Seq<
    PeerModel,
> {
    addresses.map_values(|a: Seq<char>| PeerModel { address: a, discovered_at: now, source: seed })
}

/// The peers of one seed: simulated ones for a node under development, else
/// those that the lookup gave; `None` where the lookup failed.
pub open spec fn spec_resolved(
    development: bool,
    port: u16,
    seed: Seq<char>,
    lookup: Option<Seq<Seq<char>>>,
    now: i64,
) -> Option<Seq<PeerModel>> {
    if development {
        Some(spec_simulated(port, seed, now))
    } else {
        match lookup {
            Some(addresses) => Some(spec_looked_up(addresses, seed, now)),
            None => None,
        }
    }
}

/// What is known of the lookup of seed `i`; nothing where none was handed
/// in for it.
pub open spec fn spec_lookup_at(lookups: Seq<Option<Seq<Seq<char>>>>, i: int) -> Option<
    Seq<Seq<char>>,
> {
    if 0 <= i < lookups.len() {
        lookups[i]
    } else {
        None
    }
}

/// The peers of the first `k` seeds, seed by seed.
pub open spec fn spec_found(
    development: bool,
    port: u16,
    seeds: Seq<Seq<char>>,
    lookups: Seq<Option<Seq<Seq<char>>>>,
    now: i64,
    k: int,
) -> Seq<PeerModel>
    decreases k,
{
    if k <= 0 {
        Seq::empty()
    } else {
        let before = spec_found(development, port, seeds, lookups, now, k - 1);
        match spec_resolved(development, port, seeds[k - 1], spec_lookup_at(lookups, k - 1), now) {
            Some(peers) => before + peers,
            None => before,
        }
    }
}

/// How many of the first `k` seeds gave peers.
pub open spec fn spec_successes(
    development: bool,
    lookups: Seq<Option<Seq<Seq<char>>>>,
    k: int,
) -> int
    decreases k,
{
    if k <= 0 {
        0
    } else {
        spec_successes(development, lookups, k - 1) + (if development || spec_lookup_at(
            lookups,
            k - 1,
        ) is Some {
            1int
        } else {
            0int
        })
    }
}

/// The peers without those that came before in the list.
pub open spec fn spec_unique_peers(peers: Seq<PeerModel>) -> Seq<PeerModel>
    decreases peers.len(),
{
    if peers.len() == 0 {
        Seq::empty()
    } else {
        let before = spec_unique_peers(peers.drop_last());
        if before.contains(peers.last()) {
            before
        } else {
            before.push(peers.last())
        }
    }
}

/// The first `limit` items of a list, or all where it has fewer.
pub open spec fn spec_at_most(peers: Seq<PeerModel>, limit: int) -> Seq<PeerModel> {
    if peers.len() > limit && limit >= 0 {
        peers.take(limit)
    } else {
        peers
    }
}

/// The first `k` peers that answer, in order: peer `i` answers where
/// `reachable` says so; a peer for which it says nothing does not.
pub open spec fn spec_reachable(peers: Seq<PeerModel>, reachable: Seq<bool>, k: int) -> Seq<
    PeerModel,
>
    decreases k,
{
    if k <= 0 {
        Seq::empty()
    } else {
        let before = spec_reachable(peers, reachable, k - 1);
        if k - 1 < reachable.len() && reachable[k - 1] {
            before.push(peers[k - 1])
        } else {
            before
        }
    }
}

/// Whether two peers are the same.
fn peer_eq(a: &DiscoveredPeer, b: &DiscoveredPeer) -> (same: bool)
    ensures
        same == (a@ == b@),
{
    let same = a.discovered_at == b.discovered_at && text_eq(a.address.as_str(), b.address.as_str())
        && text_eq(a.source.as_str(), b.source.as_str());
    proof {
        if same {
            assert(a@.address == b@.address);
        }
    }
    same
}

/// Whether the list holds the peer.
fn holds_peer(list: &Vec<DiscoveredPeer>, peer: &DiscoveredPeer) -> (held: bool)
    ensures
        held == peer_models(list@).contains(peer@),
{
    let ghost models = peer_models(list@);
    let mut i: usize = 0;
    while i < list.len()
        invariant
            i <= list@.len(),
            models == peer_models(list@),
            forall|j: int| 0 <= j < i ==> #[trigger] models[j] != peer@,
        decreases list@.len() - i,
    {
        assert(models[i as int] == list@[i as int]@);
        if peer_eq(&list[i], peer) {
            return true;
        }
        i += 1;
    }
    false
}

/// The peers without those that came before in the list.
fn unique_peers(peers: &Vec<DiscoveredPeer>) -> (out: Vec<DiscoveredPeer>)
    ensures
        peer_models(out@) == spec_unique_peers(peer_models(peers@)),
{
    let ghost all = peer_models(peers@);
    let mut out: Vec<DiscoveredPeer> = Vec::new();
    let mut i: usize = 0;
    proof {
        assert(all.take(0) =~= Seq::<PeerModel>::empty());
        assert(peer_models(out@) =~= Seq::<PeerModel>::empty());
    }
    while i < peers.len()
        invariant
            i <= peers@.len(),
            all == peer_models(peers@),
            all.len() == peers@.len(),
            peer_models(out@) == spec_unique_peers(all.take(i as int)),
        decreases peers@.len() - i,
    {
        proof {
            assert(all[i as int] == peers@[i as int]@);
            assert(all.take(i + 1).drop_last() =~= all.take(i as int));
            assert(all.take(i + 1).last() == all[i as int]);
        }
        if !holds_peer(&out, &peers[i]) {
            let ghost before = out@;
            out.push(peers[i].clone());
            assert(peer_models(out@) =~= peer_models(before).push(all[i as int]));
        }
        i += 1;
    }
    assert(all.take(all.len() as int) =~= all);
    out
}

/// The address of `host` at `port`.
fn with_port(host: &str, port: u16) -> (out: String)
    ensures
        out@ == host@ + spec_decimal(port as nat),
{
    String::from_str(host).concat(decimal_text(port as u64).as_str())
}

impl DnsSeeder {
    /// A peer that `seed` named at the time `now`.
    fn peer_of(address: String, seed: &str, now: i64) -> (out: DiscoveredPeer)
        ensures
            out@ == (PeerModel { address: address@, discovered_at: now, source: seed@ }),
    {
        DiscoveredPeer { address, discovered_at: now, source: owned(seed) }
    }

    /// The peers that stand for a node under development; see
    /// `spec_simulated`.
    pub fn simulate_dns_resolution(&self, seed: &str, now: i64) -> (out: Result<
        Vec<DiscoveredPeer>,
        BlockchainError,
    >)
        ensures
            out is Ok,
            peer_models(out->Ok_0@) == spec_simulated(self.spec_port(), seed@, now),
    {
        let mut peers: Vec<DiscoveredPeer> = Vec::new();
        peers.push(Self::peer_of(owned("127.0.0.1:2001"), seed, now));
        peers.push(Self::peer_of(owned("127.0.0.1:2002"), seed, now));
        peers.push(Self::peer_of(owned("127.0.0.1:2003"), seed, now));
        peers.push(Self::peer_of(with_port("192.168.1.100:", self.default_port), seed, now));
        peers.push(Self::peer_of(with_port("192.168.1.101:", self.default_port), seed, now));
        assert(peer_models(peers@) =~= spec_simulated(self.spec_port(), seed@, now));
        Ok(peers)
    }

    /// The peers at the addresses that the lookup of `seed` gave; `Network`
    /// where the lookup failed.
    pub fn perform_dns_resolution(&self, seed: &str, lookup: Option<&Vec<String>>, now: i64) -> (out:
        Result<Vec<DiscoveredPeer>, BlockchainError>)
        ensures
            match lookup {
                Some(addresses) => out is Ok && peer_models(out->Ok_0@) == spec_looked_up(
                    text_views(addresses@),
                    seed@,
                    now,
                ),
                None => out is Err && out->Err_0 is Network,
            },
    {
        let addresses = match lookup {
            Some(addresses) => addresses,
            None => {
                return Err(
                    BlockchainError::Network(
                        String::from_str("DNS resolution failed for '").concat(seed).concat("'"),
                    ),
                );
            },
        };
        let ghost found = text_views(addresses@);
        let mut peers: Vec<DiscoveredPeer> = Vec::new();
        let mut i: usize = 0;
        while i < addresses.len()
            invariant
                i <= addresses@.len(),
                found == text_views(addresses@),
                peers@.len() == i,
                forall|j: int|
                    0 <= j < i ==> (#[trigger] peers@[j])@ == (PeerModel {
                        address: found[j],
                        discovered_at: now,
                        source: seed@,
                    }),
            decreases addresses@.len() - i,
        {
            assert(found[i as int] == addresses@[i as int]@);
            peers.push(Self::peer_of(addresses[i].clone(), seed, now));
            i += 1;
        }
        assert(peer_models(peers@) =~= spec_looked_up(found, seed@, now));
        Ok(peers)
    }

    /// The peers of one seed: simulated ones for a node under development,
    /// else those that the lookup gave.
    pub fn resolve_seed(&self, seed: &str, lookup: Option<&Vec<String>>, now: i64) -> (out: Result<
        Vec<DiscoveredPeer>,
        BlockchainError,
    >)
        ensures
            match spec_resolved(
                self.spec_development(),
                self.spec_port(),
                seed@,
                match lookup {
                    Some(addresses) => Some(text_views(addresses@)),
                    None => None,
                },
                now,
            ) {
                Some(peers) => out is Ok && peer_models(out->Ok_0@) == peers,
                None => out is Err && out->Err_0 is Network,
            },
    {
        if self.is_development_mode() {
            return self.simulate_dns_resolution(seed, now);
        }
        self.perform_dns_resolution(seed, lookup, now)
    }

    /// The peers of all seeds, each once, in the order in which they were
    /// found, and no more than the seeder allows. `lookups` holds for each
    /// seed what its lookup gave; a node under development needs none.
    /// `Network` where no seed gave peers.
    pub fn discover_peers(&self, lookups: &[Option<Vec<String>>], now: i64) -> (out: Result<
        Vec<DiscoveredPeer>,
        BlockchainError,
    >)
        ensures
            out is Ok <==> spec_successes(
                self.spec_development(),
                lookup_views(lookups@),
                self.spec_seeds().len() as int,
            ) > 0,
            out is Ok ==> peer_models(out->Ok_0@) == spec_at_most(
                spec_unique_peers(
                    spec_found(
                        self.spec_development(),
                        self.spec_port(),
                        self.spec_seeds(),
                        lookup_views(lookups@),
                        now,
                        self.spec_seeds().len() as int,
                    ),
                ),
                self.spec_max_addresses() as int,
            ),
            out is Err ==> out->Err_0 is Network,
    {
        let ghost development = self.spec_development();
        let ghost port = self.spec_port();
        let ghost seeds = self.spec_seeds();
        let ghost known = lookup_views(lookups@);
        let mut all: Vec<DiscoveredPeer> = Vec::new();
        let mut succeeded = false;
        let mut i: usize = 0;
        proof {
            assert(peer_models(all@) =~= Seq::<PeerModel>::empty());
        }
        while i < self.dns_seeds.len()
            invariant
                i <= self.dns_seeds@.len(),
                development == self.spec_development(),
                port == self.spec_port(),
                seeds == self.spec_seeds(),
                seeds.len() == self.dns_seeds@.len(),
                known == lookup_views(lookups@),
                known.len() == lookups@.len(),
                peer_models(all@) == spec_found(development, port, seeds, known, now, i as int),
                succeeded == (spec_successes(development, known, i as int) > 0),
                spec_successes(development, known, i as int) >= 0,
            decreases self.dns_seeds@.len() - i,
        {
            let seed = self.dns_seeds[i].as_str();
            assert(seeds[i as int] == seed@);
            let lookup: Option<&Vec<String>> = if i < lookups.len() {
                assert(known[i as int] == (match lookups@[i as int] {
                    Some(addresses) => Some(text_views(addresses@)),
                    None => None,
                }));
                lookups[i].as_ref()
            } else {
                None
            };
            match self.resolve_seed(seed, lookup, now) {
                Ok(peers) => {
                    succeeded = true;
                    let ghost before = all@;
                    let ghost added = peers@;
                    let mut peers = peers;
                    all.append(&mut peers);
                    assert(peer_models(all@) =~= peer_models(before) + peer_models(added));
                },
                Err(_) => {},
            }
            i += 1;
        }
        if !succeeded {
            return Err(BlockchainError::Network(owned("All DNS seeds failed to resolve")));
        }
        let mut peers = unique_peers(&all);
        if peers.len() > self.max_addresses {
            let ghost before = peer_models(peers@);
            peers.truncate(self.max_addresses);
            assert(peer_models(peers@) =~= before.take(self.max_addresses as int));
        }
        Ok(peers)
    }

    /// The peers that answer: peer `i` is kept where `reachable` says that
    /// it answered.
    pub fn filter_reachable_peers(&self, peers: Vec<DiscoveredPeer>, reachable: &[bool]) -> (out:
        Vec<DiscoveredPeer>)
        ensures
            peer_models(out@) == spec_reachable(
                peer_models(peers@),
                reachable@,
                peers@.len() as int,
            ),
    {
        let ghost all = peer_models(peers@);
        let mut out: Vec<DiscoveredPeer> = Vec::new();
        let mut i: usize = 0;
        proof {
            assert(peer_models(out@) =~= Seq::<PeerModel>::empty());
        }
        while i < peers.len()
            invariant
                i <= peers@.len(),
                all == peer_models(peers@),
                peer_models(out@) == spec_reachable(all, reachable@, i as int),
            decreases peers@.len() - i,
        {
            assert(all[i as int] == peers@[i as int]@);
            if i < reachable.len() && reachable[i] {
                let ghost before = out@;
                out.push(peers[i].clone());
                assert(peer_models(out@) =~= peer_models(before).push(all[i as int]));
            }
            i += 1;
        }
        out
    }
}

} // verus!
