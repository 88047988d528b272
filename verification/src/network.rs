//! The networks a chain command can run against, and how the one in use is chosen.
use vstd::prelude::*;
use crate::json::str_eq;

verus! {

/// A deployment of a chain: its main network, a public test network, a
/// development network, or a node on this machine.
#[derive(Clone, Copy, Debug, PartialEq, Eq, Structural)]
pub enum Network {
    Mainnet,
    Testnet,
    Devnet,
    Localnet,
}

impl Network {
    /// The lower-case name under which the network is given on the command
    /// line and persisted.
    pub open spec fn spec_name(self) -> Seq<char> {
        match self {
            Network::Mainnet => "mainnet"@,
            Network::Testnet => "testnet"@,
            Network::Devnet => "devnet"@,
            Network::Localnet => "localnet"@,
        }
    }

    /// The variant's own name, as debug output shows it.
    pub open spec fn spec_debug_name(self) -> Seq<char> {
        match self {
            Network::Mainnet => "Mainnet"@,
            Network::Testnet => "Testnet"@,
            Network::Devnet => "Devnet"@,
            Network::Localnet => "Localnet"@,
        }
    }

    /// The network that a persisted name stands for, if any.
    pub open spec fn spec_from_config_str(s: Seq<char>) -> Option<Network> {
        if s == "mainnet"@ {
            Some(Network::Mainnet)
        } else if s == "testnet"@ {
            Some(Network::Testnet)
        } else if s == "devnet"@ {
            Some(Network::Devnet)
        } else if s == "localnet"@ {
            Some(Network::Localnet)
        } else {
            None
        }
    }

    pub fn as_str(&self) -> (r: &'static str)
        ensures
            r@ == self.spec_name(),
    {
        match self {
            Network::Mainnet => "mainnet",
            Network::Testnet => "testnet",
            Network::Devnet => "devnet",
            Network::Localnet => "localnet",
        }
    }

    pub fn debug_name(&self) -> (r: &'static str)
        ensures
            r@ == self.spec_debug_name(),
    {
        match self {
            Network::Mainnet => "Mainnet",
            Network::Testnet => "Testnet",
            Network::Devnet => "Devnet",
            Network::Localnet => "Localnet",
        }
    }

    /// Reads a persisted network name; anything but one of the four names is `None`.
    pub fn from_config_str(s: &str) -> (r: Option<Network>)
        ensures
            r == Network::spec_from_config_str(s@),
    {
        if str_eq(s, "mainnet") {
            Some(Network::Mainnet)
        } else if str_eq(s, "testnet") {
            Some(Network::Testnet)
        } else if str_eq(s, "devnet") {
            Some(Network::Devnet)
        } else if str_eq(s, "localnet") {
            Some(Network::Localnet)
        } else {
            None
        }
    }
}

impl Default for Network {
    fn default() -> (r: Network)
        ensures
            r == Network::Mainnet,
    {
        Network::Mainnet
    }
}

/// The network a command runs against: an explicit flag wins, then the
/// choice persisted earlier when it names a network, then Mainnet.
pub open spec fn spec_resolve_network(flag: Option<Network>, persisted: Option<Seq<char>>) -> Network {
    match flag {
        Some(n) => n,
        None => match persisted {
            Some(p) => match Network::spec_from_config_str(p) {
                Some(n) => n,
                None => Network::Mainnet,
            },
            None => Network::Mainnet,
        },
    }
}

/// Decides which network a command runs against.
pub fn resolve_network(flag: Option<Network>, persisted: Option<String>) -> (r: Network)
    ensures
        r == spec_resolve_network(
            flag,
            match persisted {
                Some(p) => Some(p@),
                None => None,
            },
        ),
{
    match flag {
        Some(n) => n,
        None => match persisted {
            Some(p) => match Network::from_config_str(p.as_str()) {
                Some(n) => n,
                None => Network::Mainnet,
            },
            None => Network::Mainnet,
        },
    }
}

/// An explicit flag always decides the network, whatever was persisted.
pub proof fn law_flag_beats_persisted(flag: Network, persisted: Option<Seq<char>>)
    ensures
        spec_resolve_network(Some(flag), persisted) == flag,
{
}

/// Without a flag, a persisted name of a network selects that network.
pub proof fn law_persisted_name_round_trips(n: Network)
    ensures
        spec_resolve_network(None, Some(n.spec_name())) == n,
{
    reveal_strlit("mainnet");
    reveal_strlit("testnet");
    reveal_strlit("devnet");
    reveal_strlit("localnet");
    assert("mainnet"@[0] != "testnet"@[0]);
    assert("mainnet"@.len() != "devnet"@.len());
    assert("mainnet"@.len() != "localnet"@.len());
    assert("testnet"@.len() != "devnet"@.len());
    assert("testnet"@.len() != "localnet"@.len());
    assert("devnet"@.len() != "localnet"@.len());
}

/// Without a flag or a persisted network name, the network is Mainnet.
pub proof fn law_unknown_falls_back_to_mainnet(persisted: Option<Seq<char>>)
    requires
        persisted matches Some(p) ==> Network::spec_from_config_str(p) is None,
    ensures
        spec_resolve_network(None, persisted) == Network::Mainnet,
{
}

} // verus!
