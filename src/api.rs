//! Values that the dashboard API reports, and the decisions behind them.
use crate::chain::{chain_name, status_name, NodeStatus};
use crate::registry::{opt_view, NodeInfo};
use vstd::prelude::*;

verus! {

/// Output format of listings.
#[derive(Debug, Clone, Copy, PartialEq, Eq, Structural)]
pub enum OutputFormat {
    Json,
    Table,
}

/// The RFC 3339 form of a time given as seconds since the Unix epoch (UTC),
/// as chrono writes it.
pub uninterp spec fn rfc3339_of(ts: i64) -> Seq<char>;

/// Timestamps (seconds) that lie well inside chrono's dates, whose years run
/// from -262143 to 262142: about 253,000 years either side of 1970.
pub const TIMESTAMP_BOUND: i64 = 8_000_000_000_000;

/// Relies on `chrono::DateTime::from_timestamp` and `to_rfc3339`: the UTC
/// time of a timestamp in RFC 3339 form; `None` only outside chrono's range
/// of dates, so never within `TIMESTAMP_BOUND` of the epoch.
#[verifier::external_body]
fn rfc3339(ts: i64) -> (r: Option<String>)
    ensures
        r is Some ==> r->Some_0@ == rfc3339_of(ts),
        -TIMESTAMP_BOUND <= ts <= TIMESTAMP_BOUND ==> r is Some,
{
    chrono::DateTime::from_timestamp(ts, 0).map(|t| t.to_rfc3339())
}

/// A registry entry as the API reports it.
#[derive(Debug, Clone)]
pub struct NodeInfoResponse {
    pub node_id: String,
    pub name: Option<String>,
    pub chain: String,
    pub instance_id: String,
    pub rpc_url: String,
    pub rpc_port: u16,
    pub accounts_count: u32,
    pub status: String,
    pub started_at: Option<String>,
}

impl NodeInfoResponse {
    /// The report of a registry entry: chain and status by name, the start
    /// time in RFC 3339 form.
    pub fn from_info(info: NodeInfo) -> (r: NodeInfoResponse)
        ensures
            r.node_id@ == info.node_id@,
            opt_view(r.name) == opt_view(info.name),
            r.chain@ == chain_name(info.chain),
            r.instance_id@ == info.instance_id@,
            r.rpc_url@ == info.rpc_url@,
            r.rpc_port == info.rpc_port,
            r.accounts_count == info.accounts_count,
            r.status@ == status_name(info.status),
            info.started_at is None ==> r.started_at is None,
            (info.started_at is Some && -TIMESTAMP_BOUND <= info.started_at->Some_0
                <= TIMESTAMP_BOUND) ==> r.started_at is Some,
            r.started_at is Some ==> info.started_at is Some && r.started_at->Some_0@ == rfc3339_of(
                info.started_at->Some_0,
            ),
    {
        let started_at = match info.started_at {
            Some(ts) => rfc3339(ts),
            None => None,
        };
        NodeInfoResponse {
            node_id: info.node_id,
            name: info.name,
            chain: String::from_str(info.chain.as_str()),
            instance_id: info.instance_id,
            rpc_url: info.rpc_url,
            rpc_port: info.rpc_port,
            accounts_count: info.accounts_count,
            status: String::from_str(info.status.as_str()),
            started_at,
        }
    }
}

/// Counts of nodes by status after a health probe.
#[derive(Debug, Clone, Copy, PartialEq, Eq, Structural)]
pub struct HealthCheckResponse {
    pub total: usize,
    pub running: usize,
    pub stopped: usize,
    pub unknown: usize,
}

/// Reply to a start request.
#[derive(Debug, Clone)]
pub struct StartNodeResponse {
    pub message: String,
    pub command: String,
    pub chain: String,
    pub instance: String,
    pub port: u16,
}

/// Reply to a stop request.
#[derive(Debug, Clone)]
pub struct StopNodeResponse {
    pub message: String,
    pub instruction: String,
    pub node_id: String,
}

/// Reply to a registry cleanup.
#[derive(Debug, Clone)]
pub struct CleanupResponse {
    pub removed: usize,
    pub remaining: usize,
    pub removed_nodes: Vec<String>,
}

/// The status a node gets from a probe: running if it answered; otherwise
/// stopped if it was recorded running or stopped, unknown if it was unknown.
pub open spec fn probed_status(alive: bool, recorded: NodeStatus) -> NodeStatus {
    if alive {
        NodeStatus::Running
    } else {
        match recorded {
            NodeStatus::Unknown => NodeStatus::Unknown,
            _ => NodeStatus::Stopped,
        }
    }
}

/// The status a node gets from a probe.
pub fn probe_status(alive: bool, recorded: NodeStatus) -> (r: NodeStatus)
    ensures
        r == probed_status(alive, recorded),
{
    if alive {
        NodeStatus::Running
    } else {
        match recorded {
            NodeStatus::Unknown => NodeStatus::Unknown,
            _ => NodeStatus::Stopped,
        }
    }
}

/// How many entries of `s` equal `st`.
pub open spec fn count_status(s: Seq<NodeStatus>, st: NodeStatus) -> nat
    decreases s.len(),
{
    if s.len() == 0 {
        0
    } else {
        count_status(s.drop_last(), st) + if s.last() == st {
            1nat
        } else {
            0nat
        }
    }
}

proof fn lemma_counts_sum(s: Seq<NodeStatus>)
    ensures
        count_status(s, NodeStatus::Running) + count_status(s, NodeStatus::Stopped) + count_status(
            s,
            NodeStatus::Unknown,
        ) == s.len(),
    decreases s.len(),
{
    if s.len() > 0 {
        lemma_counts_sum(s.drop_last());
    }
}

impl HealthCheckResponse {
    /// Counts of the probed statuses.
    pub fn tally(statuses: &Vec<NodeStatus>) -> (r: HealthCheckResponse)
        ensures
            r.total == statuses@.len(),
            r.running == count_status(statuses@, NodeStatus::Running),
            r.stopped == count_status(statuses@, NodeStatus::Stopped),
            r.unknown == count_status(statuses@, NodeStatus::Unknown),
    {
        let mut running: usize = 0;
        let mut stopped: usize = 0;
        let mut unknown: usize = 0;
        let mut i: usize = 0;
        proof {
            assert(statuses@.take(0) =~= Seq::<NodeStatus>::empty());
        }
        while i < statuses.len()
            invariant
                i <= statuses@.len(),
                running == count_status(statuses@.take(i as int), NodeStatus::Running),
                stopped == count_status(statuses@.take(i as int), NodeStatus::Stopped),
                unknown == count_status(statuses@.take(i as int), NodeStatus::Unknown),
            decreases statuses@.len() - i,
        {
            proof {
                let t = statuses@.take(i + 1);
                assert(t.drop_last() =~= statuses@.take(i as int));
                lemma_counts_sum(statuses@.take(i as int));
            }
            match statuses[i] {
                NodeStatus::Running => running = running + 1,
                NodeStatus::Stopped => stopped = stopped + 1,
                NodeStatus::Unknown => unknown = unknown + 1,
            }
            i = i + 1;
        }
        proof {
            assert(statuses@.take(statuses@.len() as int) =~= statuses@);
        }
        HealthCheckResponse { total: statuses.len(), running, stopped, unknown }
    }
}

/// A transaction touching one of an instance's accounts.
#[derive(Debug, Clone)]
pub struct TransactionInfo {
    pub signature: String,
    pub slot: u64,
    pub err: Option<String>,
    pub memo: Option<String>,
    pub block_time: Option<i64>,
    pub confirmation_status: Option<String>,
    pub account: String,
}

/// Which field orders a listing of transactions, most recent first.
#[derive(Debug, Clone, Copy, PartialEq, Eq, Structural)]
pub enum TxOrder {
    BySlot,
    ByBlockTime,
}

/// The sort key of a transaction: its slot, or its block time with an
/// unknown time below every known one.
pub open spec fn tx_key(t: TransactionInfo, order: TxOrder) -> int {
    match order {
        TxOrder::BySlot => t.slot as int,
        TxOrder::ByBlockTime => match t.block_time {
            Some(b) => b as int,
            None => i64::MIN - 1,
        },
    }
}

fn key_of(t: &TransactionInfo, order: TxOrder) -> (r: i128)
    ensures
        r as int == tx_key(*t, order),
{
    match order {
        TxOrder::BySlot => t.slot as i128,
        TxOrder::ByBlockTime => match t.block_time {
            Some(b) => b as i128,
            None => i64::MIN as i128 - 1,
        },
    }
}

/// `p` is where a stable descending insertion puts a transaction of key `k`:
/// after every entry whose key is at least `k`.
pub open spec fn is_insert_pos(s: Seq<TransactionInfo>, order: TxOrder, k: int, p: int) -> bool {
    &&& 0 <= p <= s.len()
    &&& forall|j: int| 0 <= j < p ==> tx_key(#[trigger] s[j], order) >= k
    &&& p < s.len() ==> tx_key(s[p], order) < k
}

/// `s` sorted by key, most recent first, equal keys kept in their order.
pub open spec fn sorted_recent_first(s: Seq<TransactionInfo>, order: TxOrder) -> Seq<TransactionInfo>
    decreases s.len(),
{
    if s.len() == 0 {
        s
    } else {
        let r = sorted_recent_first(s.drop_last(), order);
        let k = tx_key(s.last(), order);
        r.insert(choose|p: int| is_insert_pos(r, order, k, p), s.last())
    }
}

/// `s` without entries whose signature equals the one kept just before.
pub open spec fn dedup_signatures(s: Seq<TransactionInfo>) -> Seq<TransactionInfo>
    decreases s.len(),
{
    if s.len() == 0 {
        s
    } else {
        let r = dedup_signatures(s.drop_last());
        if r.len() > 0 && r.last().signature@ == s.last().signature@ {
            r
        } else {
            r.push(s.last())
        }
    }
}

fn copy_opt(o: &Option<String>) -> (r: Option<String>)
    ensures
        r == *o,
{
    match o {
        Some(s) => Some(s.clone()),
        None => None,
    }
}

impl TransactionInfo {
    /// A copy of this transaction.
    pub fn duplicate(&self) -> (r: TransactionInfo)
        ensures
            r == *self,
    {
        TransactionInfo {
            signature: self.signature.clone(),
            slot: self.slot,
            err: copy_opt(&self.err),
            memo: copy_opt(&self.memo),
            block_time: self.block_time,
            confirmation_status: copy_opt(&self.confirmation_status),
            account: self.account.clone(),
        }
    }
}

/// Sorts transactions most recent first (stably) and drops each one whose
/// signature repeats the one kept just before it, as the same transaction
/// shows up once per account it touches.
pub fn sort_and_dedup(txs: &Vec<TransactionInfo>, order: TxOrder) -> (r: Vec<TransactionInfo>)
    ensures
        r@ == dedup_signatures(sorted_recent_first(txs@, order)),
{
    let mut sorted: Vec<TransactionInfo> = Vec::new();
    let mut i: usize = 0;
    proof {
        assert(txs@.take(0) =~= Seq::<TransactionInfo>::empty());
    }
    while i < txs.len()
        invariant
            i <= txs@.len(),
            sorted@ == sorted_recent_first(txs@.take(i as int), order),
        decreases txs@.len() - i,
    {
        let t = txs[i].duplicate();
        let k = key_of(&t, order);
        let mut p: usize = 0;
        while p < sorted.len() && key_of(&sorted[p], order) >= k
            invariant
                p <= sorted@.len(),
                forall|j: int| 0 <= j < p ==> tx_key(#[trigger] sorted@[j], order) >= k,
            decreases sorted@.len() - p,
        {
            p = p + 1;
        }
        proof {
            let s = sorted@;
            assert(is_insert_pos(s, order, k as int, p as int));
            assert forall|q: int| is_insert_pos(s, order, k as int, q) implies q == p by {
                if q < p {
                    assert(tx_key(s[q], order) >= k);
                }
                if q > p {
                    assert(tx_key(s[p as int], order) >= k);
                }
            }
            let t2 = txs@.take(i + 1);
            assert(t2.drop_last() =~= txs@.take(i as int));
            assert(t2.last() == txs@[i as int]);
        }
        sorted.insert(p, t);
        i = i + 1;
    }
    proof {
        assert(txs@.take(txs@.len() as int) =~= txs@);
    }
    let ghost s = sorted@;
    let mut out: Vec<TransactionInfo> = Vec::new();
    let mut j: usize = 0;
    proof {
        assert(s.take(0) =~= Seq::<TransactionInfo>::empty());
    }
    while j < sorted.len()
        invariant
            s == sorted@,
            j <= s.len(),
            out@ == dedup_signatures(s.take(j as int)),
        decreases s.len() - j,
    {
        proof {
            let t2 = s.take(j + 1);
            assert(t2.drop_last() =~= s.take(j as int));
            assert(t2.last() == s[j as int]);
        }
        let n = out.len();
        if n > 0 && crate::text::str_eq(out[n - 1].signature.as_str(), sorted[j].signature.as_str()) {
        } else {
            out.push(sorted[j].duplicate());
        }
        j = j + 1;
    }
    proof {
        assert(s.take(s.len() as int) =~= s);
    }
    out
}

} // verus!
