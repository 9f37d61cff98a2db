//! The start/stop life cycle of one instance.
//!
//! `start` and `advance` decide, one step at a time, what the caller does
//! next (delete a directory, spawn the daemon, poll it, fund an account,
//! publish the instance); the caller performs each action and reports how it
//! went. `stop` says which cleanup to perform. Nothing here touches the
//! filesystem, a process or the network.
use crate::chain::{ChainType, NodeStatus};
use crate::error::ChainError;
use crate::funding::{
    blocks_to_mine, first_coinbase_stop, funding_need, records, FundingCoordinator, FundingOutcome, FundingStep, CONFIRMATION_BLOCKS,
    FAUCET_ATTEMPTS, FEE_BUFFER, MATURITY_DEPTH,
};
use crate::instance::{port_views, reserved_ports_of, InstanceConfig, InstanceInfo, ReservedPort};
use crate::paths::{accounts_file_of, instance_dir_of, instance_info_file_of};
use crate::registry::{node_id_of, opt_view, NodeInfo};
use vstd::prelude::*;

verus! {

/// Readiness polls made before a start is given up.
pub const READY_ATTEMPTS: u32 = 60;

/// Pause between two readiness polls.
pub const READY_POLL_MILLIS: u64 = 500;

/// How long after the spawn the daemon is watched for an early exit.
pub const EARLY_EXIT_GRACE_MILLIS: u64 = 1000;

/// Where a start stands.
#[derive(Debug, Clone, Copy, PartialEq, Eq, Structural)]
pub enum Stage {
    Idle,
    Reset,
    Generate,
    SaveGenerated,
    Preflight,
    Spawn,
    CheckExit,
    Snapshot,
    Poll,
    Prepare,
    Fund,
    Settle,
    Refresh,
    SaveFunded,
    Publish,
    Running,
}

/// What the caller is to do next during a start.
pub enum StartAction {
    /// Delete the instance directory if it exists.
    ResetInstanceDir { dir: String },
    /// Generate `count` accounts, from `mnemonic` where one is given.
    GenerateAccounts { count: u32, mnemonic: Option<String> },
    /// Write the accounts, with these cached balances, to `file`.
    SaveAccounts { file: String, balances: Vec<u64> },
    /// Fail if the port is already bound.
    CheckPort(ReservedPort),
    /// Launch the daemon.
    Spawn,
    /// Wait the grace period and report an exit of the daemon.
    CheckEarlyExit { grace_millis: u64 },
    /// Write the snapshot to `file`.
    WriteSnapshot { file: String, info: InstanceInfo },
    /// Ask the backend whether it is ready (after a pause, past the first poll).
    PollReady { attempt: u32 },
    /// Mine `blocks` blocks to an address of no account, then check that the
    /// wallet holds `need`.
    PrepareFunds { blocks: u64, need: u64 },
    /// Bring account `index` to `target`.
    Fund { index: usize, target: u64 },
    /// Mine `confirmations` blocks, then import every account's spend key.
    SettleFunds { confirmations: u64 },
    /// Read every account's balance from the backend.
    RefreshBalances,
    /// Publish the entry in the registry.
    Publish(NodeInfo),
    /// The start is over, with this result.
    Finished(Result<(), ChainError>),
}

/// How the last action went.
pub enum StartEvent {
    Done,
    Failed(ChainError),
    Ready(bool),
    Funding(FundingOutcome),
    Balances(Vec<Option<u64>>),
}

/// One cleanup step of a stop.
pub enum StopAction {
    /// Kill the daemon and wait for it.
    Kill,
    /// Set the registry entry to `Stopped` (failure is only a warning).
    MarkRegistryStopped { node_id: String },
    /// Set `running` to false in the snapshot file.
    MarkSnapshotStopped { file: String },
    /// Delete the instance directory.
    RemoveInstanceDir { dir: String },
}

/// A start is refused when this orchestrator holds a process already, or
/// the registry has the instance as running.
pub open spec fn start_refused(process_held: bool, registry_status: Option<NodeStatus>) -> bool {
    process_held || registry_status == Some(NodeStatus::Running)
}

/// The kinds of the cleanup steps of a stop, as numbers: kill (0), registry
/// (1), snapshot (2), directory (3).
pub open spec fn stop_kinds(process_held: bool, keep_data: bool) -> Seq<int> {
    if !process_held {
        Seq::empty()
    } else if keep_data {
        seq![0, 1, 2]
    } else {
        seq![0, 1, 2, 3]
    }
}

/// The kind number of a cleanup step.
pub open spec fn stop_kind(a: StopAction) -> int {
    match a {
        StopAction::Kill => 0,
        StopAction::MarkRegistryStopped { .. } => 1,
        StopAction::MarkSnapshotStopped { .. } => 2,
        StopAction::RemoveInstanceDir { .. } => 3,
    }
}

/// The step that follows a funding report or the start of the funding
/// pass: the coordinator's next request while accounts are left; once all
/// are dealt with, its balances are taken, the result is noted, and the
/// funds are confirmed (then keys imported) on the confirmation-based chain,
/// or balances are read back on the faucet-based one.
pub open spec fn funding_step(o: Orchestrator, r: StartAction) -> bool {
    if !o.funding().done() {
        &&& o.stage() == Stage::Fund
        &&& r == (StartAction::Fund {
            index: o.funding().next_index() as usize,
            target: o.funding().target(),
        })
    } else {
        &&& o.balances() == o.funding().balances()
        &&& (o.funding_failed() <==> o.funding().failures().len() > 0)
        &&& if o.config().chain == ChainType::Bitcoin {
            &&& o.stage() == Stage::Settle
            &&& r == (StartAction::SettleFunds { confirmations: CONFIRMATION_BLOCKS })
        } else {
            &&& o.stage() == Stage::Refresh
            &&& r == StartAction::RefreshBalances
        }
    }
}

/// `after` has begun a funding pass over `before`'s accounts towards the
/// configured balance, with `attempts` attempts per account.
pub open spec fn funding_begun(before: Orchestrator, after: Orchestrator, attempts: u32) -> bool {
    let target = before.config().initial_balance;
    &&& after.funding().wf()
    &&& after.funding().target() == target
    &&& after.funding().max_attempts() == attempts
    &&& after.funding().attempts_left() == attempts
    &&& after.funding().failures().len() == 0
    &&& after.funding().balances().len() == before.balances().len()
    &&& target != 0 ==> after.funding().balances() == before.balances() && after.funding().next_index() == 0
    &&& target == 0 ==> after.funding().done() && forall|i: int|
        0 <= i < before.balances().len() ==> #[trigger] after.funding().balances()[i] == 0
}

/// The step that asks for the port at position `i` of the plan, or, past
/// its end, for the spawn.
pub open spec fn port_step(o: Orchestrator, i: nat, r: StartAction) -> bool {
    if i < o.port_plan().len() {
        &&& o.stage() == Stage::Preflight
        &&& o.port_index() == i + 1
        &&& r matches StartAction::CheckPort(p)
        &&& (p.port, p.label@) == o.port_plan()[i as int]
    } else {
        &&& o.stage() == Stage::Spawn
        &&& r == StartAction::Spawn
    }
}

/// Drives the life cycle of one instance.
pub struct Orchestrator {
    config: InstanceConfig,
    keep_data: bool,
    process_held: bool,
    stage: Stage,
    ports: Vec<ReservedPort>,
    port_index: usize,
    attempt: u32,
    balances: Vec<u64>,
    funding: FundingCoordinator,
    funding_error: Option<ChainError>,
}

impl Orchestrator {
    /// The configuration of the current or last start.
    pub closed spec fn config(&self) -> InstanceConfig {
        self.config
    }

    /// Whether this orchestrator holds the daemon's process.
    pub closed spec fn process_held(&self) -> bool {
        self.process_held
    }

    /// Whether a stop keeps the instance directory.
    pub closed spec fn keep_data(&self) -> bool {
        self.keep_data
    }

    /// Where a start stands.
    pub closed spec fn stage(&self) -> Stage {
        self.stage
    }

    /// The cached account balances.
    pub closed spec fn balances(&self) -> Seq<u64> {
        self.balances@
    }

    /// The funding pass of the current start.
    pub closed spec fn funding(&self) -> FundingCoordinator {
        self.funding
    }

    /// The readiness poll being made.
    pub closed spec fn attempt(&self) -> u32 {
        self.attempt
    }

    /// The ports to check, with their labels, in order.
    pub closed spec fn port_plan(&self) -> Seq<(u16, Seq<char>)> {
        port_views(self.ports@)
    }

    /// How many of the ports to check have been asked for.
    pub closed spec fn port_index(&self) -> nat {
        self.port_index as nat
    }

    /// Whether the funding pass of the current start left accounts unfunded.
    pub closed spec fn funding_failed(&self) -> bool {
        self.funding_error is Some
    }

    /// Internal consistency.
    pub closed spec fn wf(&self) -> bool {
        &&& self.port_index <= self.ports@.len()
        &&& 1 <= self.attempt <= READY_ATTEMPTS
        &&& self.stage == Stage::Fund ==> self.funding.wf() && self.funding.balances().len()
            == self.balances@.len()
        &&& (self.stage == Stage::Prepare || self.stage == Stage::Settle) ==> self.config.chain
            == ChainType::Bitcoin
    }

    /// An orchestrator for `config` that holds no process.
    pub fn new(config: InstanceConfig) -> (r: Orchestrator)
        ensures
            r.wf(),
            r.config() == config,
            !r.process_held(),
            !r.keep_data(),
            r.stage() == Stage::Idle,
    {
        Orchestrator {
            config,
            keep_data: false,
            process_held: false,
            stage: Stage::Idle,
            ports: Vec::new(),
            port_index: 0,
            attempt: 1,
            balances: Vec::new(),
            funding: FundingCoordinator::new(Vec::new(), 0, 1),
            funding_error: None,
        }
    }

    /// Set whether a stop keeps the instance directory.
    pub fn set_keep_data(&mut self, keep: bool)
        requires
            old(self).wf(),
        ensures
            final(self).wf(),
            final(self).keep_data() == keep,
            final(self).config() == old(self).config(),
            final(self).process_held() == old(self).process_held(),
            final(self).stage() == old(self).stage(),
    {
        self.keep_data = keep;
    }

    /// Whether this orchestrator holds the daemon's process.
    pub fn is_running(&self) -> (r: bool)
        ensures
            r == self.process_held(),
    {
        self.process_held
    }

    /// Whether the last start ran to completion (possibly with a funding error).
    pub fn is_started(&self) -> (r: bool)
        ensures
            r == (self.stage() == Stage::Running),
    {
        self.stage == Stage::Running
    }

    /// The endpoint of the instance.
    pub fn rpc_endpoint(&self) -> (r: &str)
        ensures
            r@ == self.config().rpc_url@,
    {
        self.config.rpc_url.as_str()
    }

    /// The cached account balances.
    pub fn account_balances(&self) -> (r: &Vec<u64>)
        ensures
            r@ == self.balances(),
    {
        &self.balances
    }

    /// Begin starting an instance of `config`, given the status the registry
    /// records for it. A start is refused with `AlreadyRunning`, and nothing
    /// changes, when this orchestrator holds a process or the registry has
    /// the instance running; otherwise the first action is to clear the
    /// instance directory.
    pub fn start(&mut self, config: InstanceConfig, registry_status: Option<NodeStatus>) -> (r:
        StartAction)
        requires
            old(self).wf(),
        ensures
            final(self).wf(),
            start_refused(old(self).process_held(), registry_status) ==> {
                &&& r matches StartAction::Finished(Err(ChainError::AlreadyRunning))
                &&& *final(self) == *old(self)
            },
            !start_refused(old(self).process_held(), registry_status) ==> {
                &&& final(self).stage() == Stage::Reset
                &&& final(self).config() == config
                &&& final(self).process_held() == old(self).process_held()
                &&& final(self).keep_data() == old(self).keep_data()
                &&& r matches StartAction::ResetInstanceDir { dir }
                &&& dir@ == instance_dir_of(config.data_root@, config.chain, config.instance_id@)
            },
    {
        let refused = match registry_status {
            Some(NodeStatus::Running) => true,
            _ => false,
        };
        if self.process_held || refused {
            return StartAction::Finished(Err(ChainError::AlreadyRunning));
        }
        let dir = config.instance_dir();
        self.config = config;
        self.stage = Stage::Reset;
        self.funding_error = None;
        self.attempt = 1;
        StartAction::ResetInstanceDir { dir }
    }

    fn abort(&mut self, e: ChainError) -> (r: StartAction)
        requires
            old(self).wf(),
        ensures
            final(self).wf(),
            final(self).stage() == Stage::Idle,
            final(self).process_held() == old(self).process_held(),
            final(self).config() == old(self).config(),
            final(self).keep_data() == old(self).keep_data(),
            final(self).balances() == old(self).balances(),
            final(self).funding_failed() == old(self).funding_failed(),
            final(self).funding() == old(self).funding(),
            r == StartAction::Finished(Err(e)),
    {
        self.stage = Stage::Idle;
        StartAction::Finished(Err(e))
    }

    fn fund_or_settle(&mut self) -> (r: StartAction)
        requires
            old(self).wf(),
            old(self).stage == Stage::Fund,
        ensures
            final(self).wf(),
            final(self).process_held() == old(self).process_held(),
            final(self).config() == old(self).config(),
            final(self).keep_data() == old(self).keep_data(),
            final(self).funding() == old(self).funding(),
            !old(self).funding.done() ==> final(self).balances() == old(self).balances()
                && final(self).funding_failed() == old(self).funding_failed(),
            funding_step(*final(self), r),
    {
        match self.funding.next_step() {
            FundingStep::Fund { index, target } => StartAction::Fund { index, target },
            FundingStep::Done => {
                let n = self.balances.len();
                let mut i: usize = 0;
                while i < n
                    invariant
                        self.config == old(self).config,
                        self.keep_data == old(self).keep_data,
                        self.process_held == old(self).process_held,
                        self.port_index <= self.ports@.len(),
                        1 <= self.attempt <= READY_ATTEMPTS,
                        self.funding == old(self).funding,
                        self.funding.wf(),
                        self.funding.done(),
                        self.balances@.len() == n,
                        self.funding.balances().len() == n,
                        i <= n,
                        forall|k: int| 0 <= k < i ==> #[trigger] self.balances@[k] == self.funding.balances()[k],
                    decreases n - i,
                {
                    let b = self.funding.balance(i);
                    self.balances.set(i, b);
                    i = i + 1;
                }
                proof {
                    assert(self.balances@ =~= self.funding.balances());
                }
                self.funding_error = match self.funding.finish() {
                    Ok(()) => None,
                    Err(e) => Some(e),
                };
                match self.config.chain {
                    ChainType::Bitcoin => {
                        self.stage = Stage::Settle;
                        StartAction::SettleFunds { confirmations: CONFIRMATION_BLOCKS }
                    },
                    ChainType::Solana => {
                        self.stage = Stage::Refresh;
                        StartAction::RefreshBalances
                    },
                }
            },
        }
    }

    /// Take the start one step further, given how the last action went.
    /// A failure before publication ends the start with that error; a
    /// failure to publish is only a warning.
    pub fn advance(&mut self, event: StartEvent) -> (r: StartAction)
        requires
            old(self).wf(),
            old(self).stage() != Stage::Idle,
            old(self).stage() != Stage::Running,
        ensures
            final(self).wf(),
            final(self).config() == old(self).config(),
            final(self).keep_data() == old(self).keep_data(),
            // only the spawn takes hold of a process, only an early exit lets it go
            final(self).process_held() == (if old(self).stage() == Stage::Spawn && event is Done {
                true
            } else if old(self).stage() == Stage::CheckExit && event is Failed {
                false
            } else {
                old(self).process_held()
            }),
            // the start goes on exactly as long as no result is given
            r is Finished <==> (final(self).stage() == Stage::Idle || final(self).stage()
                == Stage::Running),
            final(self).stage() == Stage::Running ==> old(self).stage() == Stage::Publish,
            // a failure before publication ends the start with that failure
            (event is Failed && old(self).stage() != Stage::Publish) ==> {
                &&& final(self).stage() == Stage::Idle
                &&& r == StartAction::Finished(Err(event->Failed_0))
            },
            // the order of a start
            (event is Done && old(self).stage() == Stage::Reset) ==> {
                &&& final(self).stage() == Stage::Generate
                &&& r matches StartAction::GenerateAccounts { count, mnemonic }
                &&& count == old(self).config().accounts
                &&& opt_view(mnemonic) == opt_view(old(self).config().mnemonic)
            },
            (event is Done && old(self).stage() == Stage::Generate) ==> {
                &&& final(self).stage() == Stage::SaveGenerated
                &&& final(self).balances() == Seq::new(
                    old(self).config().accounts as nat,
                    |i: int| old(self).config().initial_balance,
                )
                &&& r matches StartAction::SaveAccounts { file, balances }
                &&& balances@ == final(self).balances()
                &&& file@ == accounts_file_of(
                    old(self).config().data_root@,
                    old(self).config().chain,
                    old(self).config().instance_id@,
                )
            },
            (event is Done && old(self).stage() == Stage::SaveGenerated) ==> match reserved_ports_of(
                old(self).config().chain,
                old(self).config().rpc_port,
                old(self).config().p2p_port,
            ) {
                Some(plan) => final(self).port_plan() == plan && port_step(*final(self), 0, r),
                None => final(self).stage() == Stage::Idle && r matches StartAction::Finished(
                    Err(ChainError::Config(_)),
                ),
            },
            (event is Done && old(self).stage() == Stage::Preflight) ==> final(self).port_plan()
                == old(self).port_plan() && port_step(*final(self), old(self).port_index(), r),
            (event is Done && old(self).stage() == Stage::Spawn) ==> {
                &&& final(self).stage() == Stage::CheckExit
                &&& r == (StartAction::CheckEarlyExit { grace_millis: EARLY_EXIT_GRACE_MILLIS })
            },
            (event is Done && old(self).stage() == Stage::CheckExit) ==> {
                &&& final(self).stage() == Stage::Snapshot
                &&& r matches StartAction::WriteSnapshot { file, info }
                &&& info.running
                &&& info.instance_id@ == old(self).config().instance_id@
                &&& info.accounts_count == old(self).config().accounts
                &&& info.rpc_port == old(self).config().rpc_port
                &&& file@ == instance_info_file_of(
                    old(self).config().data_root@,
                    old(self).config().chain,
                    old(self).config().instance_id@,
                )
            },
            (event is Done && old(self).stage() == Stage::Snapshot) ==> {
                &&& final(self).stage() == Stage::Poll
                &&& final(self).attempt() == 1
                &&& r == (StartAction::PollReady { attempt: 1 })
            },
            // readiness: poll again until the attempts run out
            (event is Ready && !event->Ready_0 && old(self).stage() == Stage::Poll)
                ==> if old(self).attempt() < READY_ATTEMPTS {
                &&& final(self).stage() == Stage::Poll
                &&& final(self).attempt() == old(self).attempt() + 1
                &&& r == (StartAction::PollReady { attempt: (old(self).attempt() + 1) as u32 })
            } else {
                &&& final(self).stage() == Stage::Idle
                &&& r matches StartAction::Finished(Err(ChainError::NodeManagement(_)))
            },
            // ready: the faucet-based chain funds at once; the confirmation-based
            // one first mines what the funding needs
            (event is Ready && event->Ready_0 && old(self).stage() == Stage::Poll)
                ==> if old(self).config().chain == ChainType::Solana {
                funding_begun(*old(self), *final(self), FAUCET_ATTEMPTS) && funding_step(
                    *final(self),
                    r,
                )
            } else {
                let need = funding_need(
                    old(self).balances().len(),
                    old(self).config().initial_balance as nat,
                );
                if need <= u64::MAX {
                    &&& final(self).stage() == Stage::Prepare
                    &&& r matches StartAction::PrepareFunds { blocks, need: n }
                    &&& n == need
                    &&& exists|k: nat|
                        first_coinbase_stop(need, k) && blocks == MATURITY_DEPTH + (if k == 0 {
                            1
                        } else {
                            k
                        })
                } else {
                    &&& final(self).stage() == Stage::Idle
                    &&& r matches StartAction::Finished(Err(ChainError::Config(_)))
                }
            },
            (event is Done && old(self).stage() == Stage::Prepare) ==> funding_begun(
                *old(self),
                *final(self),
                1,
            ) && funding_step(*final(self), r),
            // a funding report is recorded; the pass goes on or ends
            (event is Funding && old(self).stage() == Stage::Fund) ==> if old(
                self,
            ).funding().done() {
                final(self).stage() == Stage::Idle && r is Finished
            } else {
                records(old(self).funding(), event->Funding_0, final(self).funding()) && funding_step(
                    *final(self),
                    r,
                )
            },
            (event is Done && old(self).stage() == Stage::Settle) ==> {
                &&& final(self).stage() == Stage::Refresh
                &&& r == StartAction::RefreshBalances
            },
            (event is Balances && old(self).stage() == Stage::Refresh && event->Balances_0@.len()
                == old(self).balances().len()) ==> {
                &&& final(self).stage() == Stage::SaveFunded
                &&& r matches StartAction::SaveAccounts { file, balances }
                &&& balances@ == final(self).balances()
                &&& file@ == accounts_file_of(
                    old(self).config().data_root@,
                    old(self).config().chain,
                    old(self).config().instance_id@,
                )
                &&& final(self).balances().len() == old(self).balances().len()
                &&& forall|i: int|
                    0 <= i < old(self).balances().len() ==> #[trigger] final(self).balances()[i]
                        == match event->Balances_0@[i] {
                        Some(b) => b,
                        None => old(self).balances()[i],
                    }
            },
            (event is Done && old(self).stage() == Stage::SaveFunded) ==> {
                &&& final(self).stage() == Stage::Publish
                &&& r matches StartAction::Publish(entry)
                &&& entry@.status == NodeStatus::Running
                &&& entry@.node_id == node_id_of(old(self).config().chain, old(self).config().instance_id@)
                &&& entry@.instance_id == old(self).config().instance_id@
                &&& entry@.accounts_count == old(self).config().accounts
            },
            // balances change only where accounts are generated, funded or read back
            (old(self).stage() != Stage::Generate && old(self).stage() != Stage::Refresh
                && old(self).stage() != Stage::Fund && old(self).stage() != Stage::Prepare
                && old(self).stage() != Stage::Poll) ==> (final(self).balances() == old(self).balances()),
            (old(self).stage() == Stage::Poll && event is Ready && !event->Ready_0) ==> (final(self).balances() == old(self).balances()),
            // only the funding pass decides whether funding failed
            (old(self).stage() != Stage::Fund && old(self).stage() != Stage::Prepare && old(
                self,
            ).stage() != Stage::Poll) ==> final(self).funding_failed() == old(self).funding_failed(),
            // publication, done or failed, ends the start with the funding pass's result
            (old(self).stage() == Stage::Publish && (event is Done || event is Failed)) ==> {
                &&& final(self).stage() == Stage::Running
                &&& r matches StartAction::Finished(res)
                &&& (res is Ok <==> !old(self).funding_failed())
            },
    {
        let stage = self.stage;
        match event {
            StartEvent::Failed(e) => {
                if stage == Stage::Publish {
                    self.stage = Stage::Running;
                    return StartAction::Finished(self.funding_result());
                }
                if stage == Stage::CheckExit {
                    self.process_held = false;
                }
                return self.abort(e);
            },
            StartEvent::Done => {
                match stage {
                    Stage::Reset => {
                        self.stage = Stage::Generate;
                        let mnemonic = match &self.config.mnemonic {
                            Some(m) => Some(m.clone()),
                            None => None,
                        };
                        StartAction::GenerateAccounts { count: self.config.accounts, mnemonic }
                    },
                    Stage::Generate => {
                        let mut b: Vec<u64> = Vec::new();
                        let mut i: u32 = 0;
                        while i < self.config.accounts
                            invariant
                                b@.len() == i,
                                i <= self.config.accounts,
                                forall|k: int| 0 <= k < i ==> #[trigger] b@[k] == self.config.initial_balance,
                            decreases self.config.accounts - i,
                        {
                            b.push(self.config.initial_balance);
                            i = i + 1;
                        }
                        proof {
                            assert(b@ =~= Seq::new(
                                self.config.accounts as nat,
                                |i: int| self.config.initial_balance,
                            ));
                        }
                        self.balances = b;
                        self.stage = Stage::SaveGenerated;
                        StartAction::SaveAccounts {
                            file: self.config.accounts_file(),
                            balances: self.balances.clone(),
                        }
                    },
                    Stage::SaveGenerated => {
                        match self.config.reserved_ports() {
                            Ok(ports) => {
                                self.ports = ports;
                                self.port_index = 0;
                                self.next_port()
                            },
                            Err(e) => self.abort(e),
                        }
                    },
                    Stage::Preflight => self.next_port(),
                    Stage::Spawn => {
                        self.process_held = true;
                        self.stage = Stage::CheckExit;
                        StartAction::CheckEarlyExit { grace_millis: EARLY_EXIT_GRACE_MILLIS }
                    },
                    Stage::CheckExit => {
                        self.stage = Stage::Snapshot;
                        StartAction::WriteSnapshot {
                            file: self.config.instance_info_file(),
                            info: self.config.snapshot(true),
                        }
                    },
                    Stage::Snapshot => {
                        self.stage = Stage::Poll;
                        self.attempt = 1;
                        StartAction::PollReady { attempt: 1 }
                    },
                    Stage::Prepare => self.begin_funding(1),
                    Stage::Settle => {
                        self.stage = Stage::Refresh;
                        StartAction::RefreshBalances
                    },
                    Stage::SaveFunded => {
                        self.stage = Stage::Publish;
                        StartAction::Publish(self.config.registry_entry())
                    },
                    Stage::Publish => {
                        self.stage = Stage::Running;
                        StartAction::Finished(self.funding_result())
                    },
                    _ => self.abort(ChainError::Other(String::from_str("unexpected report during start"))),
                }
            },
            StartEvent::Ready(ready) => {
                if stage != Stage::Poll {
                    return self.abort(ChainError::Other(String::from_str("unexpected report during start")));
                }
                if ready {
                    match self.config.chain {
                        ChainType::Bitcoin => {
                            let count = self.balances.len() as u64;
                            let target = self.config.initial_balance;
                            let need = match count.checked_mul(target) {
                                Some(a) => match count.checked_mul(FEE_BUFFER) {
                                    Some(b) => a.checked_add(b),
                                    None => None,
                                },
                                None => None,
                            };
                            match need {
                                Some(need) => {
                                    self.stage = Stage::Prepare;
                                    let blocks = blocks_to_mine(count, target);
                                    StartAction::PrepareFunds { blocks, need }
                                },
                                None => self.abort(
                                    ChainError::Config(String::from_str("funding total exceeds the largest amount")),
                                ),
                            }
                        },
                        ChainType::Solana => self.begin_funding(FAUCET_ATTEMPTS),
                    }
                } else if self.attempt < READY_ATTEMPTS {
                    self.attempt = self.attempt + 1;
                    StartAction::PollReady { attempt: self.attempt }
                } else {
                    self.abort(ChainError::NodeManagement(String::from_str("Node did not start in time")))
                }
            },
            StartEvent::Funding(outcome) => {
                if stage != Stage::Fund || self.funding.is_done() {
                    return self.abort(ChainError::Other(String::from_str("unexpected report during start")));
                }
                self.funding.record(outcome);
                self.fund_or_settle()
            },
            StartEvent::Balances(observed) => {
                if stage != Stage::Refresh || observed.len() != self.balances.len() {
                    return self.abort(ChainError::Other(String::from_str("unexpected report during start")));
                }
                crate::funding::refresh_balances(&mut self.balances, &observed);
                self.stage = Stage::SaveFunded;
                let balances = self.balances.clone();
                proof {
                    assert(balances@ =~= self.balances@);
                }
                StartAction::SaveAccounts { file: self.config.accounts_file(), balances }
            },
        }
    }

    fn next_port(&mut self) -> (r: StartAction)
        requires
            old(self).wf(),
        ensures
            final(self).wf(),
            final(self).process_held() == old(self).process_held(),
            final(self).config() == old(self).config(),
            final(self).keep_data() == old(self).keep_data(),
            final(self).balances() == old(self).balances(),
            final(self).funding_failed() == old(self).funding_failed(),
            final(self).port_plan() == old(self).port_plan(),
            port_step(*final(self), old(self).port_index(), r),
    {
        if self.port_index < self.ports.len() {
            let q = &self.ports[self.port_index];
            let p = ReservedPort { port: q.port, label: q.label.clone() };
            proof {
                assert(self.port_plan()[self.port_index as int] == (p.port, p.label@));
            }
            self.port_index = self.port_index + 1;
            self.stage = Stage::Preflight;
            StartAction::CheckPort(p)
        } else {
            self.stage = Stage::Spawn;
            StartAction::Spawn
        }
    }

    fn begin_funding(&mut self, attempts: u32) -> (r: StartAction)
        requires
            old(self).wf(),
            attempts >= 1,
        ensures
            final(self).wf(),
            final(self).process_held() == old(self).process_held(),
            final(self).config() == old(self).config(),
            final(self).keep_data() == old(self).keep_data(),
            funding_begun(*old(self), *final(self), attempts),
            funding_step(*final(self), r),
    {
        let balances = self.balances.clone();
        proof {
            assert(balances@ =~= self.balances@);
        }
        self.funding = FundingCoordinator::new(balances, self.config.initial_balance, attempts);
        self.stage = Stage::Fund;
        self.fund_or_settle()
    }

    fn funding_result(&self) -> (r: Result<(), ChainError>)
        ensures
            r is Ok <==> !self.funding_failed(),
    {
        match &self.funding_error {
            Some(e) => Err(e.clone()),
            None => Ok(()),
        }
    }

    /// Stop the instance: when a process is held, kill it, mark the registry
    /// entry and the snapshot as stopped, and delete the instance directory
    /// unless data is kept; when none is held, do nothing. Either way no
    /// process is held afterwards.
    pub fn stop(&mut self) -> (r: Vec<StopAction>)
        requires
            old(self).wf(),
        ensures
            final(self).wf(),
            !final(self).process_held(),
            final(self).config() == old(self).config(),
            final(self).keep_data() == old(self).keep_data(),
            r@.len() == stop_kinds(old(self).process_held(), old(self).keep_data()).len(),
            forall|i: int|
                0 <= i < r@.len() ==> stop_kind(#[trigger] r@[i]) == stop_kinds(
                    old(self).process_held(),
                    old(self).keep_data(),
                )[i],
            forall|i: int|
                0 <= i < r@.len() ==> match #[trigger] r@[i] {
                    StopAction::MarkRegistryStopped { node_id } => node_id@ == node_id_of(
                        old(self).config().chain,
                        old(self).config().instance_id@,
                    ),
                    StopAction::MarkSnapshotStopped { file } => file@ == instance_info_file_of(
                        old(self).config().data_root@,
                        old(self).config().chain,
                        old(self).config().instance_id@,
                    ),
                    StopAction::RemoveInstanceDir { dir } => dir@ == instance_dir_of(
                        old(self).config().data_root@,
                        old(self).config().chain,
                        old(self).config().instance_id@,
                    ),
                    StopAction::Kill => true,
                },
    {
        let mut r: Vec<StopAction> = Vec::new();
        if self.process_held {
            r.push(StopAction::Kill);
            r.push(StopAction::MarkRegistryStopped { node_id: self.config.node_id() });
            r.push(StopAction::MarkSnapshotStopped { file: self.config.instance_info_file() });
            if !self.keep_data {
                r.push(StopAction::RemoveInstanceDir { dir: self.config.instance_dir() });
            }
        }
        self.process_held = false;
        self.stage = Stage::Idle;
        r
    }
}

/// A start is refused whenever the registry has the instance running,
/// whatever this orchestrator holds.
pub proof fn lemma_running_in_registry_refuses(process_held: bool)
    ensures
        start_refused(process_held, Some(NodeStatus::Running)),
{
}

/// A stop leaves no process held (see `stop`), and from such a state a stop
/// performs no cleanup at all, no kill in particular: stopping twice in a row
/// does its work once.
pub proof fn lemma_second_stop_is_noop(after_first: Orchestrator)
    requires
        !after_first.process_held(),
    ensures
        stop_kinds(after_first.process_held(), after_first.keep_data()).len() == 0,
        !stop_kinds(after_first.process_held(), after_first.keep_data()).contains(0),
{
}

} // verus!
