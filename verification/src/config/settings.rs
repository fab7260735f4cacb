//! The address of the node, the address that mining pays to, and the name of
//! the node.

use crate::error::owned;
use vstd::prelude::*;
use vstd::string::*;

verus! {

/// The address of a node that is given none.
pub const DEFAULT_NODE_ADDR: &'static str = "127.0.0.1:2001";

/// Where the part of a text behind its last colon starts: 0 where it has no
/// colon.
pub open spec fn spec_tail_start(text: Seq<char>) -> int
    decreases text.len(),
{
    if text.len() == 0 {
        0
    } else if text.last() == ':' {
        text.len() as int
    } else {
        spec_tail_start(text.drop_last())
    }
}

/// The part of a text behind its last colon; the whole text where it has no
/// colon.
pub open spec fn spec_after_last_colon(text: Seq<char>) -> Seq<char> {
    text.skip(spec_tail_start(text))
}

/// The settings of a node.
pub struct Config {
    node_addr: String,
    mining_addr: Option<String>,
    node_id: Option<String>,
}

/// What the settings are.
pub struct SettingsModel {
    pub node_addr: Seq<char>,
    pub mining_addr: Option<Seq<char>>,
    pub node_id: Option<Seq<char>>,
}

/// The text of a setting that may be there.
pub open spec fn spec_setting(text: Option<String>) -> Option<Seq<char>> {
    match text {
        Some(t) => Some(t@),
        None => None,
    }
}

impl View for Config {
    type V = SettingsModel;

    closed spec fn view(&self) -> SettingsModel {
        SettingsModel {
            node_addr: self.node_addr@,
            mining_addr: spec_setting(self.mining_addr),
            node_id: spec_setting(self.node_id),
        }
    }
}

impl Config {
    /// The settings of a node that is given nothing: the default address, no
    /// mining address and no name.
    pub fn new() -> (out: Config)
        ensures
            out@ == (SettingsModel {
                node_addr: DEFAULT_NODE_ADDR@,
                mining_addr: None,
                node_id: None,
            }),
    {
        Config { node_addr: owned(DEFAULT_NODE_ADDR), mining_addr: None, node_id: None }
    }

    /// The settings of a node whose surroundings name an address or a name:
    /// what they name is taken, the default address where they name none.
    pub fn from_environment(node_address: Option<String>, node_id: Option<String>) -> (out: Config)
        ensures
            out@ == (SettingsModel {
                node_addr: match node_address {
                    Some(addr) => addr@,
                    None => DEFAULT_NODE_ADDR@,
                },
                mining_addr: None,
                node_id: spec_setting(node_id),
            }),
    {
        let node_addr = match node_address {
            Some(addr) => addr,
            None => owned(DEFAULT_NODE_ADDR),
        };
        Config { node_addr, mining_addr: None, node_id }
    }

    /// The address of the node.
    pub fn get_node_addr(&self) -> (out: String)
        ensures
            out@ == self@.node_addr,
    {
        self.node_addr.clone()
    }

    /// Replaces the address of the node.
    pub fn set_node_addr(&mut self, addr: String)
        ensures
            final(self)@ == (SettingsModel { node_addr: addr@, ..old(self)@ }),
    {
        self.node_addr = addr;
    }

    /// Sets the address that mining pays to.
    pub fn set_mining_addr(&mut self, addr: String)
        ensures
            final(self)@ == (SettingsModel { mining_addr: Some(addr@), ..old(self)@ }),
    {
        self.mining_addr = Some(addr);
    }

    /// The address that mining pays to, where one is set.
    pub fn get_mining_addr(&self) -> (out: Option<String>)
        ensures
            spec_setting(out) == self@.mining_addr,
    {
        match &self.mining_addr {
            Some(addr) => Some(addr.clone()),
            None => None,
        }
    }

    /// Whether a mining address is set.
    pub fn is_miner(&self) -> (out: bool)
        ensures
            out == (self@.mining_addr is Some),
    {
        self.mining_addr.is_some()
    }

    /// Sets the name of the node.
    pub fn set_node_id(&mut self, node_id: String)
        ensures
            final(self)@ == (SettingsModel { node_id: Some(node_id@), ..old(self)@ }),
    {
        self.node_id = Some(node_id);
    }

    /// The name of the node, where one is set.
    pub fn get_node_id(&self) -> (out: Option<String>)
        ensures
            spec_setting(out) == self@.node_id,
    {
        match &self.node_id {
            Some(id) => Some(id.clone()),
            None => None,
        }
    }

    /// The part of the address behind its last colon: the port of
    /// `"127.0.0.1:2001"` is `"2001"`.
    pub fn extract_node_id_from_addr(&self) -> (out: String)
        ensures
            out@ == spec_after_last_colon(self@.node_addr),
    {
        let addr = self.node_addr.as_str();
        let n = addr.unicode_len();
        let mut i: usize = n;
        assert(addr@.take(n as int) =~= addr@);
        while i > 0 && addr.get_char(i - 1) != ':'
            invariant
                i <= n,
                n == addr@.len(),
                spec_tail_start(addr@) == spec_tail_start(addr@.take(i as int)),
            decreases i,
        {
            proof {
                assert(addr@.take(i as int).last() == addr@[i - 1]);
                assert(addr@.take(i as int).drop_last() =~= addr@.take(i - 1));
            }
            i -= 1;
        }
        proof {
            if i > 0 {
                assert(addr@.take(i as int).last() == addr@[i - 1]);
            }
            assert(addr@.subrange(i as int, n as int) =~= addr@.skip(i as int));
        }
        owned(addr.substring_char(i, n))
    }
}

impl Default for Config {
    fn default() -> (out: Self)
        ensures
            out@ == (SettingsModel {
                node_addr: DEFAULT_NODE_ADDR@,
                mining_addr: None,
                node_id: None,
            }),
    {
        Config::new()
    }
}

} // verus!
