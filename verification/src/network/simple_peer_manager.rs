//! The peers that are connected, and how many more a node takes.

use crate::chain::blockchain::text_eq;
use crate::utils::lists::{lemma_without_first_at, spec_without_first};
use crate::network::dns_seeding::{
    lookup_views, peer_models, spec_at_most, spec_found, spec_successes, spec_unique_peers,
    DnsSeeder, PeerModel,
};
use crate::error::BlockchainError;
use crate::utils::serialization::text_views;
use vstd::prelude::*;

verus! {

/// The connected peers of a node, by address, and the limit on their number.
pub struct SimplePeerManager {
    dns_seeder: DnsSeeder,
    connected_peers: Vec<String>,
    max_connections: usize,
}

/// The first `count` addresses of `found` that are not in `connected`.
pub open spec fn spec_peers_to_connect(
    found: Seq<Seq<char>>,
    connected: Seq<Seq<char>>,
    count: int,
) -> Seq<Seq<char>>
    decreases found.len(),
{
    if found.len() == 0 {
        Seq::empty()
    } else {
        let before = spec_peers_to_connect(found.drop_last(), connected, count);
        if before.len() < count && !connected.contains(found.last()) {
            before.push(found.last())
        } else {
            before
        }
    }
}

/// The addresses of the peers, in order.
pub open spec fn spec_addresses_of(peers: Seq<PeerModel>) -> Seq<Seq<char>> {
    peers.map_values(|p: PeerModel| p.address)
}

impl SimplePeerManager {
    /// The addresses of the connected peers, in the order in which they
    /// came.
    pub closed spec fn spec_connected(&self) -> Seq<Seq<char>> {
        text_views(self.connected_peers@)
    }

    /// The limit on the number of connections.
    pub closed spec fn spec_max_connections(&self) -> usize {
        self.max_connections
    }

    /// No connections, the given limit, and the default seeds at
    /// `default_port`.
    pub fn new(max_connections: usize, default_port: u16) -> (out: Self)
        ensures
            out.spec_connected().len() == 0,
            out.spec_max_connections() == max_connections,
            out.spec_seeds() == DnsSeeder::spec_default_seeds(),
            out.spec_port() == default_port,
    {
        let out = Self {
            dns_seeder: DnsSeeder::new(default_port),
            connected_peers: Vec::new(),
            max_connections,
        };
        assert(out.spec_connected() =~= Seq::<Seq<char>>::empty());
        out
    }

    /// No connections, a limit of eight, and the seeds of a node under
    /// development.
    pub fn for_development() -> (out: Self)
        ensures
            out.spec_connected().len() == 0,
            out.spec_max_connections() == 8,
            out.spec_seeds() == seq!["localhost"@, "127.0.0.1"@],
            out.spec_port() == 2001,
    {
        let out = Self {
            dns_seeder: DnsSeeder::development(),
            connected_peers: Vec::new(),
            max_connections: 8,
        };
        assert(out.spec_connected() =~= Seq::<Seq<char>>::empty());
        out
    }

    /// The seeder.
    pub closed spec fn spec_seeder(&self) -> DnsSeeder {
        self.dns_seeder
    }

    /// The seeds.
    pub open spec fn spec_seeds(&self) -> Seq<Seq<char>> {
        self.spec_seeder().spec_seeds()
    }

    /// The port that the seeds are asked at.
    pub open spec fn spec_port(&self) -> u16 {
        self.spec_seeder().spec_port()
    }

    /// The seeder.
    pub fn get_seeder(&self) -> (out: &DnsSeeder)
        ensures
            *out == self.spec_seeder(),
            out.spec_seeds() == self.spec_seeds(),
            out.spec_port() == self.spec_port(),
    {
        &self.dns_seeder
    }

    /// Whether the peer at `address` is connected.
    fn find(&self, address: &str) -> (out: Option<usize>)
        ensures
            match out {
                Some(i) => i < self.spec_connected().len() && self.spec_connected()[i as int]
                    == address@ && forall|j: int|
                    0 <= j < i ==> #[trigger] self.spec_connected()[j] != address@,
                None => !self.spec_connected().contains(address@),
            },
    {
        let mut i: usize = 0;
        while i < self.connected_peers.len()
            invariant
                i <= self.connected_peers@.len(),
                forall|j: int| 0 <= j < i ==> #[trigger] self.spec_connected()[j] != address@,
            decreases self.connected_peers@.len() - i,
        {
            assert(self.spec_connected()[i as int] == self.connected_peers@[i as int]@);
            if text_eq(self.connected_peers[i].as_str(), address) {
                return Some(i);
            }
            i += 1;
        }
        None
    }

    /// The peers to connect to: none where the limit is reached; else, of
    /// the peers that the seeds give, the addresses of the first that are
    /// not connected, as many as the limit leaves room for. `lookups` holds
    /// for each seed what its lookup gave. `Network` where room is left and
    /// no seed gave peers.
    pub fn get_peers_to_connect(&self, lookups: &[Option<Vec<String>>], now: i64) -> (out: Result<
        Vec<String>,
        BlockchainError,
    >)
        ensures
            self.spec_connected().len() >= self.spec_max_connections() ==> out is Ok
                && out->Ok_0@.len() == 0,
            self.spec_connected().len() < self.spec_max_connections() ==> {
                let seeder = self.spec_seeder();
                let count = seeder.spec_seeds().len() as int;
                let known = lookup_views(lookups@);
                &&& out is Ok <==> spec_successes(seeder.spec_development(), known, count) > 0
                &&& out is Err ==> out->Err_0 is Network
                &&& out is Ok ==> text_views(out->Ok_0@) == spec_peers_to_connect(
                    spec_addresses_of(
                        spec_at_most(
                            spec_unique_peers(
                                spec_found(
                                    seeder.spec_development(),
                                    seeder.spec_port(),
                                    seeder.spec_seeds(),
                                    known,
                                    now,
                                    count,
                                ),
                            ),
                            seeder.spec_max_addresses() as int,
                        ),
                    ),
                    self.spec_connected(),
                    self.spec_max_connections() - self.spec_connected().len(),
                )
            },
    {
        if self.connected_peers.len() >= self.max_connections {
            return Ok(Vec::new());
        }
        let discovered = match self.dns_seeder.discover_peers(lookups, now) {
            Ok(peers) => peers,
            Err(e) => { return Err(e); },
        };
        let ghost found = peer_models(discovered@);
        let mut addresses: Vec<String> = Vec::new();
        let mut i: usize = 0;
        while i < discovered.len()
            invariant
                i <= discovered@.len(),
                found == peer_models(discovered@),
                addresses@.len() == i,
                forall|j: int| 0 <= j < i ==> (#[trigger] addresses@[j])@ == found[j].address,
            decreases discovered@.len() - i,
        {
            assert(found[i as int] == discovered@[i as int]@);
            addresses.push(discovered[i].address.clone());
            i += 1;
        }
        assert(text_views(addresses@) =~= spec_addresses_of(found));
        Ok(self.peers_to_connect_among(addresses.as_slice()))
    }

    /// Of the addresses that were found, the first that are not connected,
    /// as many as the limit leaves room for.
    pub fn peers_to_connect_among(&self, discovered: &[String]) -> (out: Vec<String>)
        ensures
            text_views(out@) == (if self.spec_connected().len() >= self.spec_max_connections() {
                Seq::<Seq<char>>::empty()
            } else {
                spec_peers_to_connect(
                    text_views(discovered@),
                    self.spec_connected(),
                    self.spec_max_connections() - self.spec_connected().len(),
                )
            }),
    {
        let mut available: Vec<String> = Vec::new();
        let connected_count = self.connected_peers.len();
        if connected_count >= self.max_connections {
            assert(text_views(available@) =~= Seq::<Seq<char>>::empty());
            return available;
        }
        let needed = self.max_connections - connected_count;
        let ghost found = text_views(discovered@);
        let mut i: usize = 0;
        proof {
            assert(found.take(0) =~= Seq::<Seq<char>>::empty());
            assert(text_views(available@) =~= Seq::<Seq<char>>::empty());
        }
        while i < discovered.len()
            invariant
                i <= discovered@.len(),
                found == text_views(discovered@),
                found.len() == discovered@.len(),
                needed == self.spec_max_connections() - self.spec_connected().len(),
                available@.len() == text_views(available@).len(),
                text_views(available@) == spec_peers_to_connect(
                    found.take(i as int),
                    self.spec_connected(),
                    needed as int,
                ),
            decreases discovered@.len() - i,
        {
            proof {
                assert(found[i as int] == discovered@[i as int]@);
                assert(found.take(i + 1).drop_last() =~= found.take(i as int));
                assert(found.take(i + 1).last() == found[i as int]);
            }
            if available.len() < needed && self.find(discovered[i].as_str()).is_none() {
                let ghost before = available@;
                available.push(discovered[i].clone());
                assert(text_views(available@) =~= text_views(before).push(found[i as int]));
            }
            i += 1;
        }
        assert(found.take(found.len() as int) =~= found);
        available
    }

    /// Notes that the peer at `address` is connected.
    pub fn record_connection(&mut self, address: String) -> (out: Result<(), BlockchainError>)
        ensures
            final(self).spec_seeder() == old(self).spec_seeder(),
            final(self).spec_seeds() == old(self).spec_seeds(),
            final(self).spec_port() == old(self).spec_port(),
            out is Ok,
            final(self).spec_max_connections() == old(self).spec_max_connections(),
            final(self).spec_connected() == (if old(self).spec_connected().contains(address@) {
                old(self).spec_connected()
            } else {
                old(self).spec_connected().push(address@)
            }),
    {
        let ghost before = self.spec_connected();
        if self.find(address.as_str()).is_none() {
            self.connected_peers.push(address);
            assert(self.spec_connected() =~= before.push(address@));
        }
        Ok(())
    }

    /// Notes that the peer at `address` is no longer connected.
    pub fn record_disconnection(&mut self, address: &str) -> (out: Result<(), BlockchainError>)
        ensures
            final(self).spec_seeder() == old(self).spec_seeder(),
            final(self).spec_seeds() == old(self).spec_seeds(),
            final(self).spec_port() == old(self).spec_port(),
            out is Ok,
            final(self).spec_max_connections() == old(self).spec_max_connections(),
            final(self).spec_connected() == spec_without_first(
                old(self).spec_connected(),
                address@,
            ),
    {
        let ghost before = self.spec_connected();
        match self.find(address) {
            Some(i) => {
                let _ = self.connected_peers.remove(i);
                proof {
                    lemma_without_first_at(before, address@, i as int);
                    assert(self.spec_connected() =~= before.remove(i as int));
                }
            },
            None => {
                proof {
                    lemma_without_first_at(before, address@, before.len() as int);
                }
            },
        }
        Ok(())
    }

    /// The addresses of the connected peers.
    pub fn get_connected_addresses(&self) -> (out: Result<Vec<String>, BlockchainError>)
        ensures
            out is Ok,
            text_views(out->Ok_0@) == self.spec_connected(),
    {
        let mut out: Vec<String> = Vec::new();
        let mut i: usize = 0;
        while i < self.connected_peers.len()
            invariant
                i <= self.connected_peers@.len(),
                out@.len() == i,
                forall|j: int| 0 <= j < i ==> (#[trigger] out@[j])@ == self.connected_peers@[j]@,
            decreases self.connected_peers@.len() - i,
        {
            out.push(self.connected_peers[i].clone());
            i += 1;
        }
        assert(text_views(out@) =~= self.spec_connected());
        Ok(out)
    }

    /// The number of connected peers.
    pub fn get_connected_count(&self) -> (out: Result<usize, BlockchainError>)
        ensures
            out is Ok,
            out->Ok_0 == self.spec_connected().len(),
    {
        Ok(self.connected_peers.len())
    }

    /// Whether the limit leaves room for one more connection.
    pub fn should_accept_connection(&self) -> (out: Result<bool, BlockchainError>)
        ensures
            out is Ok,
            out->Ok_0 == (self.spec_connected().len() < self.spec_max_connections()),
    {
        Ok(self.connected_peers.len() < self.max_connections)
    }
}

} // verus!
