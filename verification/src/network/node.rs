//! The peers that a node knows, by address.

use crate::chain::blockchain::text_eq;
use crate::utils::lists::{lemma_without_first_at, spec_without_first};
use vstd::prelude::*;

verus! {

/// A peer.
pub struct Node {
    addr: String,
}

impl View for Node {
    type V = Seq<char>;

    closed spec fn view(&self) -> Seq<char> {
        self.addr@
    }
}

impl Clone for Node {
    fn clone(&self) -> (out: Self)
        ensures
            out@ == self@,
    {
        Node { addr: self.addr.clone() }
    }
}

impl Node {
    /// The peer at `addr`.
    pub fn new(addr: String) -> (out: Node)
        ensures
            out@ == addr@,
    {
        Node { addr }
    }

    /// The address of the peer.
    pub fn get_addr(&self) -> (out: String)
        ensures
            out@ == self@,
    {
        self.addr.clone()
    }
}

/// The addresses of a list of peers.
pub open spec fn node_addresses(nodes: Seq<Node>) -> Seq<Seq<char>> {
    nodes.map_values(|n: Node| n@)
}

/// The peers that a node knows, in the order in which they came; no address
/// comes twice through `add_node`.
pub struct Nodes {
    inner: Vec<Node>,
}

impl View for Nodes {
    type V = Seq<Seq<char>>;

    closed spec fn view(&self) -> Seq<Seq<char>> {
        node_addresses(self.inner@)
    }
}

impl Nodes {
    /// No peers.
    pub fn new() -> (out: Nodes)
        ensures
            out@.len() == 0,
    {
        let out = Nodes { inner: Vec::new() };
        assert(out@ =~= Seq::<Seq<char>>::empty());
        out
    }

    /// The place of the first peer at `addr`.
    fn find(&self, addr: &str) -> (out: Option<usize>)
        ensures
            match out {
                Some(i) => i < self@.len() && self@[i as int] == addr@ && forall|j: int|
                    0 <= j < i ==> #[trigger] self@[j] != addr@,
                None => !self@.contains(addr@),
            },
    {
        let mut i: usize = 0;
        while i < self.inner.len()
            invariant
                i <= self.inner@.len(),
                forall|j: int| 0 <= j < i ==> #[trigger] self@[j] != addr@,
            decreases self.inner@.len() - i,
        {
            assert(self@[i as int] == self.inner@[i as int]@);
            if text_eq(self.inner[i].addr.as_str(), addr) {
                return Some(i);
            }
            i += 1;
        }
        None
    }

    /// Adds the peer at `addr` unless it is known.
    pub fn add_node(&mut self, addr: String)
        ensures
            final(self)@ == (if old(self)@.contains(addr@) {
                old(self)@
            } else {
                old(self)@.push(addr@)
            }),
    {
        let ghost before = self@;
        if self.find(addr.as_str()).is_none() {
            self.inner.push(Node::new(addr));
            assert(self@ =~= before.push(addr@));
        }
    }

    /// Takes the first peer at `addr` out.
    pub fn evict_node(&mut self, addr: &str)
        ensures
            final(self)@ == spec_without_first(old(self)@, addr@),
    {
        let ghost before = self@;
        match self.find(addr) {
            Some(i) => {
                let _ = self.inner.remove(i);
                proof {
                    lemma_without_first_at(before, addr@, i as int);
                    assert(self@ =~= before.remove(i as int));
                }
            },
            None => {
                proof {
                    lemma_without_first_at(before, addr@, before.len() as int);
                }
            },
        }
    }

    /// The first peer.
    pub fn first(&self) -> (out: Option<Node>)
        ensures
            self@.len() == 0 ==> out is None,
            self@.len() > 0 ==> out is Some && out->Some_0@ == self@[0],
    {
        if self.inner.len() == 0 {
            None
        } else {
            assert(self@[0] == self.inner@[0]@);
            Some(self.inner[0].clone())
        }
    }

    /// Copies of all peers, in order.
    pub fn get_nodes(&self) -> (out: Vec<Node>)
        ensures
            node_addresses(out@) == self@,
    {
        let mut out: Vec<Node> = Vec::new();
        let mut i: usize = 0;
        while i < self.inner.len()
            invariant
                i <= self.inner@.len(),
                out@.len() == i,
                forall|j: int| 0 <= j < i ==> (#[trigger] out@[j])@ == self.inner@[j]@,
            decreases self.inner@.len() - i,
        {
            out.push(self.inner[i].clone());
            i += 1;
        }
        assert(node_addresses(out@) =~= self@);
        out
    }

    /// The number of peers.
    pub fn len(&self) -> (out: usize)
        ensures
            out == self@.len(),
    {
        self.inner.len()
    }

    /// Whether no peer is known.
    pub fn is_empty(&self) -> (out: bool)
        ensures
            out == (self@.len() == 0),
    {
        self.inner.len() == 0
    }

    /// Whether the peer at `addr` is known.
    pub fn node_is_known(&self, addr: &str) -> (out: bool)
        ensures
            out == self@.contains(addr@),
    {
        self.find(addr).is_some()
    }
}

impl Default for Nodes {
    fn default() -> (out: Self)
        ensures
            out@.len() == 0,
    {
        Nodes::new()
    }
}

} // verus!
