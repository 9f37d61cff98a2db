use crate::text::{lower_of, lowercase, str_eq};
use vstd::prelude::*;

verus! {

/// Kind of blockchain backend an instance runs.
#[derive(Debug, Clone, Copy, PartialEq, Eq, Hash, Structural)]
pub enum ChainType {
    Solana,
    Bitcoin,
}

/// The lowercase name of a chain kind, as used in node ids and paths.
pub open spec fn chain_name(c: ChainType) -> Seq<char> {
    match c {
        ChainType::Solana => seq!['s', 'o', 'l', 'a', 'n', 'a'],
        ChainType::Bitcoin => seq!['b', 'i', 't', 'c', 'o', 'i', 'n'],
    }
}

impl ChainType {
    /// The lowercase name of this chain kind.
    pub fn as_str(&self) -> (r: &'static str)
        ensures
            r@ == chain_name(*self),
    {
        proof {
            reveal_strlit("solana");
            reveal_strlit("bitcoin");
        }
        match self {
            ChainType::Solana => "solana",
            ChainType::Bitcoin => "bitcoin",
        }
    }
}

/// Status of a node as recorded in the registry.
#[derive(Debug, Clone, Copy, PartialEq, Eq, Structural)]
pub enum NodeStatus {
    Running,
    Stopped,
    Unknown,
}

/// The lowercase name of a node status.
pub open spec fn status_name(s: NodeStatus) -> Seq<char> {
    match s {
        NodeStatus::Running => seq!['r', 'u', 'n', 'n', 'i', 'n', 'g'],
        NodeStatus::Stopped => seq!['s', 't', 'o', 'p', 'p', 'e', 'd'],
        NodeStatus::Unknown => seq!['u', 'n', 'k', 'n', 'o', 'w', 'n'],
    }
}

impl NodeStatus {
    /// The lowercase name of this status.
    pub fn as_str(&self) -> (r: &'static str)
        ensures
            r@ == status_name(*self),
    {
        proof {
            reveal_strlit("running");
            reveal_strlit("stopped");
            reveal_strlit("unknown");
        }
        match self {
            NodeStatus::Running => "running",
            NodeStatus::Stopped => "stopped",
            NodeStatus::Unknown => "unknown",
        }
    }
}

/// Network a chain client talks to.
#[derive(Debug, Clone, Copy, PartialEq, Eq, Structural)]
pub enum Network {
    Localnet,
    Devnet,
    Testnet,
    Mainnet,
}

/// The canonical lowercase name of a network.
pub open spec fn network_name(n: Network) -> Seq<char> {
    match n {
        Network::Localnet => seq!['l', 'o', 'c', 'a', 'l', 'n', 'e', 't'],
        Network::Devnet => seq!['d', 'e', 'v', 'n', 'e', 't'],
        Network::Testnet => seq!['t', 'e', 's', 't', 'n', 'e', 't'],
        Network::Mainnet => seq!['m', 'a', 'i', 'n', 'n', 'e', 't'],
    }
}

/// The short alias accepted for a network besides its canonical name.
pub open spec fn network_alias(n: Network) -> Seq<char> {
    match n {
        Network::Localnet => seq!['l', 'o', 'c', 'a', 'l'],
        Network::Devnet => seq!['d', 'e', 'v'],
        Network::Testnet => seq!['t', 'e', 's', 't'],
        Network::Mainnet => seq!['m', 'a', 'i', 'n'],
    }
}

/// The network that an already lowercased word names, if any.
pub open spec fn network_of_word(t: Seq<char>) -> Option<Network> {
    if t == network_name(Network::Localnet) || t == network_alias(Network::Localnet) {
        Some(Network::Localnet)
    } else if t == network_name(Network::Devnet) || t == network_alias(Network::Devnet) {
        Some(Network::Devnet)
    } else if t == network_name(Network::Testnet) || t == network_alias(Network::Testnet) {
        Some(Network::Testnet)
    } else if t == network_name(Network::Mainnet) || t == network_alias(Network::Mainnet) {
        Some(Network::Mainnet)
    } else {
        None
    }
}

/// The message of the error returned for a word that names no network.
pub open spec fn invalid_network_message(s: Seq<char>) -> Seq<char> {
    seq!['I', 'n', 'v', 'a', 'l', 'i', 'd', ' ', 'n', 'e', 't', 'w', 'o', 'r', 'k', ':', ' '] + s
}

impl Network {
    /// The canonical lowercase name of this network.
    pub fn as_str(&self) -> (r: &'static str)
        ensures
            r@ == network_name(*self),
    {
        proof {
            reveal_strlit("localnet");
            reveal_strlit("devnet");
            reveal_strlit("testnet");
            reveal_strlit("mainnet");
        }
        match self {
            Network::Localnet => "localnet",
            Network::Devnet => "devnet",
            Network::Testnet => "testnet",
            Network::Mainnet => "mainnet",
        }
    }

    /// Display form of this network (its canonical name).
    pub fn to_string(&self) -> (r: String)
        ensures
            r@ == network_name(*self),
    {
        String::from_str(self.as_str())
    }

    /// Reads a network from a word that is already lowercase.
    pub fn from_lowered(t: &str) -> (r: Option<Network>)
        ensures
            r == network_of_word(t@),
    {
        proof {
            reveal_strlit("localnet");
            reveal_strlit("local");
            reveal_strlit("devnet");
            reveal_strlit("dev");
            reveal_strlit("testnet");
            reveal_strlit("test");
            reveal_strlit("mainnet");
            reveal_strlit("main");
            assert("localnet"@ =~= network_name(Network::Localnet));
            assert("local"@ =~= network_alias(Network::Localnet));
            assert("devnet"@ =~= network_name(Network::Devnet));
            assert("dev"@ =~= network_alias(Network::Devnet));
            assert("testnet"@ =~= network_name(Network::Testnet));
            assert("test"@ =~= network_alias(Network::Testnet));
            assert("mainnet"@ =~= network_name(Network::Mainnet));
            assert("main"@ =~= network_alias(Network::Mainnet));
        }
        if str_eq(t, "localnet") || str_eq(t, "local") {
            Some(Network::Localnet)
        } else if str_eq(t, "devnet") || str_eq(t, "dev") {
            Some(Network::Devnet)
        } else if str_eq(t, "testnet") || str_eq(t, "test") {
            Some(Network::Testnet)
        } else if str_eq(t, "mainnet") || str_eq(t, "main") {
            Some(Network::Mainnet)
        } else {
            None
        }
    }

    /// Reads a network name or alias in any letter case.
    pub fn parse(s: &str) -> (r: Result<Network, String>)
        ensures
            network_of_word(lower_of(s@)) is Some ==> r == Ok::<Network, String>(
                network_of_word(lower_of(s@))->Some_0,
            ),
            network_of_word(lower_of(s@)) is None ==> r is Err && r->Err_0@
                == invalid_network_message(s@),
    {
        let lowered = lowercase(s);
        match Network::from_lowered(lowered.as_str()) {
            Some(n) => Ok(n),
            None => {
                proof {
                    reveal_strlit("Invalid network: ");
                }
                let msg = String::from_str("Invalid network: ").concat(s);
                Err(msg)
            },
        }
    }
}

impl std::str::FromStr for Network {
    type Err = String;

    fn from_str(s: &str) -> Result<Network, String> {
        Network::parse(s)
    }
}

} // verus!
