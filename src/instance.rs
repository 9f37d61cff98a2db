//! What one instance is configured with, and the snapshot it publishes.
use crate::chain::ChainType;
use crate::error::ChainError;
use crate::paths::{
    join_of, DATA_DIR_NAME, accounts_file, accounts_file_of, data_dir, instance_dir, instance_dir_of, instance_info_file,
    instance_info_file_of,
};
use crate::registry::{node_id_of, opt_view, NodeInfo, NodeRegistry};
use crate::text::{decimal, decimal_of};
use vstd::prelude::*;

verus! {

/// Base units in one SOL.
pub const LAMPORTS_PER_SOL: u64 = 1_000_000_000;

/// Base units in one BTC.
pub const SATS_PER_BTC: u64 = 100_000_000;

/// Offset of the faucet port from the RPC port of a validator.
pub const FAUCET_PORT_OFFSET: u16 = 1002;

/// Width of the dynamic port range of a validator.
pub const DYNAMIC_RANGE_WIDTH: u16 = 500;

/// Configuration of one instance. Balances are in base units.
#[derive(Debug, Clone)]
pub struct InstanceConfig {
    pub chain: ChainType,
    pub instance_id: String,
    pub name: Option<String>,
    pub rpc_url: String,
    pub rpc_port: u16,
    /// Peer port; used by the confirmation-based backend only.
    pub p2p_port: u16,
    pub accounts: u32,
    pub initial_balance: u64,
    pub mnemonic: Option<String>,
    pub rpc_user: String,
    pub rpc_password: String,
    /// Root of all instance data.
    pub data_root: String,
    /// Send the daemon's output to the terminal instead of log files.
    pub verbose: bool,
}

/// One port an instance reserves, with what it is for.
#[derive(Debug, Clone)]
pub struct ReservedPort {
    pub port: u16,
    pub label: String,
}

/// The ports an instance of a given configuration reserves, in the order
/// they are checked, with their labels; `None` where they leave the port range.
pub open spec fn reserved_ports_of(chain: ChainType, rpc_port: u16, p2p_port: u16) -> Option<
    Seq<(u16, Seq<char>)>,
> {
    match chain {
        ChainType::Bitcoin => Some(seq![(rpc_port, "RPC"@), (p2p_port, "P2P"@)]),
        ChainType::Solana => if rpc_port as int + 1002 + 2 + 500 <= u16::MAX {
            let faucet = (rpc_port + 1002) as u16;
            Some(
                seq![
                    (rpc_port, "RPC"@),
                    (faucet, "Faucet"@),
                    ((faucet + 1) as u16, "Gossip"@),
                    ((faucet + 2) as u16, "Dynamic range"@),
                ],
            )
        } else {
            None
        },
    }
}

/// The error reported for a port that is already bound.
pub open spec fn port_in_use_message(label: Seq<char>, port: u16) -> Seq<char> {
    label + " port "@ + decimal_of(port as nat)
        + " is already in use. Check for other running nodes or services."@
}

/// The error for a port that is already bound, naming the port and its use.
pub fn port_in_use(p: &ReservedPort) -> (r: ChainError)
    ensures
        r == ChainError::NodeManagement(r->NodeManagement_0),
        r->NodeManagement_0@ == port_in_use_message(p.label@, p.port),
{
    let d = decimal(p.port as u64);
    let m = p.label.clone().concat(" port ").concat(d.as_str()).concat(
        " is already in use. Check for other running nodes or services.",
    );
    proof {
        assert(m@ =~= port_in_use_message(p.label@, p.port));
    }
    ChainError::NodeManagement(m)
}

fn reserved(port: u16, label: &str) -> (r: ReservedPort)
    ensures
        r.port == port,
        r.label@ == label@,
{
    ReservedPort { port, label: String::from_str(label) }
}

/// The port and label pairs of a list of reserved ports.
pub open spec fn port_views(s: Seq<ReservedPort>) -> Seq<(u16, Seq<char>)> {
    s.map_values(|p: ReservedPort| (p.port, p.label@))
}

impl InstanceConfig {
    /// The default configuration of an instance of `chain` named
    /// `instance_id`, kept under `root`.
    pub fn with_root(chain: ChainType, instance_id: &str, root: &str) -> (r: InstanceConfig)
        ensures
            r.chain == chain,
            r.instance_id@ == instance_id@,
            r.data_root@ == root@,
            r.name is None,
            r.mnemonic is None,
            r.accounts == 10,
            !r.verbose,
            chain == ChainType::Solana ==> r.rpc_port == 8899 && r.initial_balance == 100
                * LAMPORTS_PER_SOL && r.rpc_url@ == "http://localhost:8899"@,
            chain == ChainType::Bitcoin ==> r.rpc_port == 18443 && r.p2p_port == 18444
                && r.initial_balance == 10 * SATS_PER_BTC && r.rpc_url@ == "http://127.0.0.1:18443"@
                && r.rpc_user@ == "chainforge"@ && r.rpc_password@ == "chainforge"@,
    {
        match chain {
            ChainType::Solana => InstanceConfig {
                chain,
                instance_id: String::from_str(instance_id),
                name: None,
                rpc_url: String::from_str("http://localhost:8899"),
                rpc_port: 8899,
                p2p_port: 0,
                accounts: 10,
                initial_balance: 100 * LAMPORTS_PER_SOL,
                mnemonic: None,
                rpc_user: String::new(),
                rpc_password: String::new(),
                data_root: String::from_str(root),
                verbose: false,
            },
            ChainType::Bitcoin => InstanceConfig {
                chain,
                instance_id: String::from_str(instance_id),
                name: None,
                rpc_url: String::from_str("http://127.0.0.1:18443"),
                rpc_port: 18443,
                p2p_port: 18444,
                accounts: 10,
                initial_balance: 10 * SATS_PER_BTC,
                mnemonic: None,
                rpc_user: String::from_str("chainforge"),
                rpc_password: String::from_str("chainforge"),
                data_root: String::from_str(root),
                verbose: false,
            },
        }
    }

    /// The default configuration of an instance, kept under the default data root.
    pub fn with_instance(chain: ChainType, instance_id: &str) -> (r: InstanceConfig)
        ensures
            r.chain == chain,
            r.instance_id@ == instance_id@,
            r.name is None,
            r.mnemonic is None,
            r.accounts == 10,
            !r.verbose,
            chain == ChainType::Solana ==> r.rpc_port == 8899 && r.initial_balance == 100
                * LAMPORTS_PER_SOL && r.rpc_url@ == "http://localhost:8899"@,
            chain == ChainType::Bitcoin ==> r.rpc_port == 18443 && r.p2p_port == 18444
                && r.initial_balance == 10 * SATS_PER_BTC && r.rpc_url@ == "http://127.0.0.1:18443"@
                && r.rpc_user@ == "chainforge"@ && r.rpc_password@ == "chainforge"@,
            r.data_root@ == DATA_DIR_NAME@ || exists|h: Seq<char>| r.data_root@ == join_of(
                h,
                DATA_DIR_NAME@,
            ),
    {
        let root = data_dir();
        InstanceConfig::with_root(chain, instance_id, root.as_str())
    }

    /// The instance directory: `<root>/<chain>/instances/<id>`.
    pub fn instance_dir(&self) -> (r: String)
        ensures
            r@ == instance_dir_of(self.data_root@, self.chain, self.instance_id@),
    {
        instance_dir(self.data_root.as_str(), self.chain, self.instance_id.as_str())
    }

    /// The account file of this instance.
    pub fn accounts_file(&self) -> (r: String)
        ensures
            r@ == accounts_file_of(self.data_root@, self.chain, self.instance_id@),
    {
        accounts_file(self.data_root.as_str(), self.chain, self.instance_id.as_str())
    }

    /// The snapshot file of this instance.
    pub fn instance_info_file(&self) -> (r: String)
        ensures
            r@ == instance_info_file_of(self.data_root@, self.chain, self.instance_id@),
    {
        instance_info_file(self.data_root.as_str(), self.chain, self.instance_id.as_str())
    }

    /// The registry id of this instance.
    pub fn node_id(&self) -> (r: String)
        ensures
            r@ == node_id_of(self.chain, self.instance_id@),
    {
        NodeRegistry::node_id(self.chain, self.instance_id.as_str())
    }

    /// The ports to check before the daemon is spawned.
    pub fn reserved_ports(&self) -> (r: Result<Vec<ReservedPort>, ChainError>)
        ensures
            reserved_ports_of(self.chain, self.rpc_port, self.p2p_port) is Some <==> r is Ok,
            r is Ok ==> port_views(r->Ok_0@) == reserved_ports_of(
                self.chain,
                self.rpc_port,
                self.p2p_port,
            )->Some_0,
            r is Err ==> r->Err_0 is Config,
    {
        let mut v: Vec<ReservedPort> = Vec::new();
        match self.chain {
            ChainType::Bitcoin => {
                v.push(reserved(self.rpc_port, "RPC"));
                v.push(reserved(self.p2p_port, "P2P"));
            },
            ChainType::Solana => {
                if self.rpc_port > 65535 - 1504 {
                    return Err(
                        ChainError::Config(
                            String::from_str("RPC port leaves no room for the validator's other ports"),
                        ),
                    );
                }
                let faucet = self.rpc_port + FAUCET_PORT_OFFSET;
                v.push(reserved(self.rpc_port, "RPC"));
                v.push(reserved(faucet, "Faucet"));
                v.push(reserved(faucet + 1, "Gossip"));
                v.push(reserved(faucet + 2, "Dynamic range"));
            },
        }
        proof {
            assert(port_views(v@) =~= reserved_ports_of(self.chain, self.rpc_port, self.p2p_port)->Some_0);
        }
        Ok(v)
    }

    /// The snapshot this instance publishes.
    pub fn snapshot(&self, running: bool) -> (r: InstanceInfo)
        ensures
            r.instance_id@ == self.instance_id@,
            opt_view(r.name) == opt_view(self.name),
            r.rpc_url@ == self.rpc_url@,
            r.rpc_port == self.rpc_port,
            r.p2p_port == self.p2p_port,
            r.rpc_user@ == self.rpc_user@,
            r.rpc_password@ == self.rpc_password@,
            r.accounts_count == self.accounts,
            r.running == running,
    {
        InstanceInfo {
            instance_id: self.instance_id.clone(),
            name: match &self.name {
                Some(n) => Some(n.clone()),
                None => None,
            },
            rpc_url: self.rpc_url.clone(),
            rpc_port: self.rpc_port,
            p2p_port: self.p2p_port,
            rpc_user: self.rpc_user.clone(),
            rpc_password: self.rpc_password.clone(),
            accounts_count: self.accounts,
            running,
        }
    }

    /// The registry entry this instance publishes once started.
    pub fn registry_entry(&self) -> (r: NodeInfo)
        ensures
            r@.node_id == node_id_of(self.chain, self.instance_id@),
            r@.name == opt_view(self.name),
            r@.chain == self.chain,
            r@.instance_id == self.instance_id@,
            r@.rpc_url == self.rpc_url@,
            r@.rpc_port == self.rpc_port,
            r@.accounts_count == self.accounts,
            r@.status == crate::chain::NodeStatus::Running,
    {
        let name = match &self.name {
            Some(n) => Some(n.clone()),
            None => None,
        };
        NodeInfo::new(
            self.chain,
            self.instance_id.as_str(),
            name,
            self.rpc_url.clone(),
            self.rpc_port,
            self.accounts,
        )
    }
}

/// Snapshot of an instance, saved for other processes to find it.
#[derive(Debug, Clone)]
pub struct InstanceInfo {
    pub instance_id: String,
    pub name: Option<String>,
    pub rpc_url: String,
    pub rpc_port: u16,
    pub p2p_port: u16,
    pub rpc_user: String,
    pub rpc_password: String,
    pub accounts_count: u32,
    /// Whether the instance is running (may be stale; the registry decides)
    pub running: bool,
}

impl InstanceInfo {
    /// Mark the instance as stopped.
    pub fn mark_stopped(&mut self)
        ensures
            !final(self).running,
            final(self).instance_id == old(self).instance_id,
            final(self).name == old(self).name,
            final(self).rpc_url == old(self).rpc_url,
            final(self).rpc_port == old(self).rpc_port,
            final(self).p2p_port == old(self).p2p_port,
            final(self).rpc_user == old(self).rpc_user,
            final(self).rpc_password == old(self).rpc_password,
            final(self).accounts_count == old(self).accounts_count,
    {
        self.running = false;
    }
}

/// Snapshot of a validator instance, in the layout its files use.
#[derive(Debug, Clone)]
pub struct SolanaInstanceInfo {
    pub instance_id: String,
    pub name: Option<String>,
    pub rpc_url: String,
    pub rpc_port: u16,
    pub accounts_count: u32,
    /// Whether the instance is running (may be stale; the registry decides)
    pub running: bool,
}

impl SolanaInstanceInfo {
    /// The validator layout of a snapshot.
    pub fn from_info(info: InstanceInfo) -> (r: SolanaInstanceInfo)
        ensures
            r.instance_id == info.instance_id,
            r.name == info.name,
            r.rpc_url == info.rpc_url,
            r.rpc_port == info.rpc_port,
            r.accounts_count == info.accounts_count,
            r.running == info.running,
    {
        SolanaInstanceInfo {
            instance_id: info.instance_id,
            name: info.name,
            rpc_url: info.rpc_url,
            rpc_port: info.rpc_port,
            accounts_count: info.accounts_count,
            running: info.running,
        }
    }

    /// Mark the instance as stopped.
    pub fn mark_stopped(&mut self)
        ensures
            !final(self).running,
            final(self).instance_id == old(self).instance_id,
            final(self).name == old(self).name,
            final(self).rpc_url == old(self).rpc_url,
            final(self).rpc_port == old(self).rpc_port,
            final(self).accounts_count == old(self).accounts_count,
    {
        self.running = false;
    }
}

} // verus!
