use chain_forge::chain::{ChainType, NodeStatus};
use chain_forge::error::ChainError;
use chain_forge::funding::{
    blocks_to_mine, top_up_amount, refresh_balances, FundingCoordinator, FundingOutcome,
    FundingStep,
};
use chain_forge::instance::{port_in_use, InstanceConfig, InstanceInfo, ReservedPort, SolanaInstanceInfo};
use chain_forge::orchestrator::{Orchestrator, StartAction, StartEvent, StopAction};
use chain_forge::paths::{accounts_file, instance_dir, instance_info_file, AccountsStorage};
use chain_forge::registry::NodeRegistry;
use chain_forge::text::decimal;
use chain_forge::funding::{check_wallet, plan_spend, SpendPlan};
use chain_forge::supervisor::{contains_str, early_exit_error};

fn run_pass(c: &mut FundingCoordinator, failing: &[usize]) {
    loop {
        match c.next_step() {
            FundingStep::Done => break,
            FundingStep::Fund { index, .. } => {
                if failing.contains(&index) {
                    c.record(FundingOutcome::Failed(format!("refused {}", index)));
                } else {
                    c.record(FundingOutcome::Funded);
                }
            }
        }
    }
}

#[test]
fn funding_success_brings_every_account_to_target() {
    let mut c = FundingCoordinator::new(vec![0, 0, 0, 0], 10, 1);
    run_pass(&mut c, &[]);
    assert!(c.finish().is_ok());
    for i in 0..4 {
        assert_eq!(c.balance(i), 10);
    }
    assert!(c.failed_accounts().is_empty());
}

#[test]
fn funding_failures_are_named_and_zeroed() {
    let mut c = FundingCoordinator::new(vec![0, 0, 0, 0, 0], 10, 1);
    run_pass(&mut c, &[1, 3]);
    assert_eq!(c.failed_accounts(), vec![1, 3]);
    let balances: Vec<u64> = (0..5).map(|i| c.balance(i)).collect();
    assert_eq!(balances, vec![10, 0, 10, 0, 10]);
    match c.finish() {
        Err(ChainError::Rpc(m)) => {
            assert_eq!(m, "Failed to fund 2 account(s): account 1: refused 1; account 3: refused 3")
        }
        _ => panic!("expected an RPC error"),
    }
}

#[test]
fn faucet_retries_before_giving_up() {
    let mut c = FundingCoordinator::new(vec![0, 0], 7, 3);
    c.record(FundingOutcome::Failed("rate limited".to_string()));
    c.record(FundingOutcome::Failed("rate limited".to_string()));
    assert!(matches!(c.next_step(), FundingStep::Fund { index: 0, target: 7 }));
    c.record(FundingOutcome::Funded);
    for _ in 0..3 {
        c.record(FundingOutcome::Failed("down".to_string()));
    }
    assert!(matches!(c.next_step(), FundingStep::Done));
    assert_eq!(c.balance(0), 7);
    assert_eq!(c.balance(1), 0);
    assert_eq!(c.failed_accounts(), vec![1]);
}

#[test]
fn zero_target_requests_nothing() {
    let c = FundingCoordinator::new(vec![5, 6], 0, 1);
    assert!(matches!(c.next_step(), FundingStep::Done));
    assert_eq!(c.balance(0), 0);
    assert!(c.finish().is_ok());
}

#[test]
fn top_up_amount_adds_only_the_difference() {
    assert_eq!(top_up_amount(3, 10), Some(7));
    assert_eq!(top_up_amount(10, 10), None);
    assert_eq!(top_up_amount(12, 10), None);
}

#[test]
fn blocks_to_mine_covers_need_and_maturity() {
    assert_eq!(blocks_to_mine(3, 1_000_000_000), 101);
    assert_eq!(blocks_to_mine(10, 1_000_000_000), 103);
    assert_eq!(blocks_to_mine(0, 0), 101);
    assert_eq!(blocks_to_mine(1000, 1_000_000_000), 351);
    assert_eq!(blocks_to_mine(1_000_000, 1_000_000_000), 5050);
}

#[test]
fn refresh_overwrites_only_reported_balances() {
    let mut b = vec![1, 2, 3];
    refresh_balances(&mut b, &vec![Some(9), None, Some(0)]);
    assert_eq!(b, vec![9, 2, 0]);
}

#[test]
fn decimal_formats_numbers() {
    assert_eq!(decimal(0), "0");
    assert_eq!(decimal(8899), "8899");
    assert_eq!(decimal(u64::MAX), "18446744073709551615");
}

#[test]
fn instance_paths_follow_the_layout() {
    assert_eq!(instance_dir("/r", ChainType::Solana, "dev"), "/r/solana/instances/dev");
    assert_eq!(accounts_file("/r", ChainType::Bitcoin, "dev"), "/r/bitcoin/instances/dev/accounts.json");
    assert_eq!(instance_info_file("/r", ChainType::Solana, "x"), "/r/solana/instances/x/instance.json");
    assert_ne!(instance_dir("/r", ChainType::Solana, "a"), instance_dir("/r", ChainType::Solana, "b"));
    assert_eq!(AccountsStorage::new("/d", ChainType::Bitcoin).accounts_file(), "/d/bitcoin/accounts.json");
    assert_eq!(AccountsStorage::with_path("/x/a.json".to_string()).accounts_file(), "/x/a.json");
}

#[test]
fn lib_test_config_defaults() {
    let config = InstanceConfig::with_root(ChainType::Bitcoin, "default", "/tmp/cf");
    assert_eq!(config.rpc_port, 18443);
    assert_eq!(config.p2p_port, 18444);
    assert_eq!(config.accounts, 10);
    assert_eq!(config.initial_balance, 1_000_000_000);
    assert_eq!(config.rpc_url, "http://127.0.0.1:18443");
    assert_eq!(config.rpc_user, "chainforge");
    assert_eq!(config.rpc_password, "chainforge");
    assert!(config.mnemonic.is_none());
}

#[test]
fn lib_test_config_with_instance() {
    let config = InstanceConfig::with_instance(ChainType::Bitcoin, "test-instance");
    assert_eq!(config.instance_id, "test-instance");
    assert!(config.name.is_none());
}

#[test]
fn lib_test_instance_paths() {
    let config = InstanceConfig::with_instance(ChainType::Bitcoin, "my-instance");
    assert!(config.instance_dir().ends_with("bitcoin/instances/my-instance"));
    assert!(config.accounts_file().ends_with("bitcoin/instances/my-instance/accounts.json"));
    assert!(config.instance_info_file().ends_with("bitcoin/instances/my-instance/instance.json"));
}

#[test]
fn lib_test_different_instance_configs() {
    let config1 = InstanceConfig::with_instance(ChainType::Solana, "dev");
    let config2 = InstanceConfig::with_instance(ChainType::Solana, "test");
    assert_ne!(config1.instance_dir(), config2.instance_dir());
    assert_ne!(config1.accounts_file(), config2.accounts_file());
    assert_ne!(config1.instance_info_file(), config2.instance_info_file());
    assert_eq!(config1.rpc_port, config2.rpc_port);
}

#[test]
fn lib_test_provider_not_running_initially() {
    let o = Orchestrator::new(InstanceConfig::with_instance(ChainType::Solana, "default"));
    assert!(!o.is_running());
    assert_eq!(o.rpc_endpoint(), "http://localhost:8899");
    assert!(o.account_balances().is_empty());
}

#[test]
fn lib_test_keep_data_flag() {
    let cfg = InstanceConfig::with_root(ChainType::Solana, "k", "/tmp/cf");
    let mut o = Orchestrator::new(cfg);
    o.set_keep_data(true);
    // a stop with nothing held does nothing, whatever the flag
    assert!(o.stop().is_empty());
}

#[test]
fn reserved_ports_per_chain() {
    let s = InstanceConfig::with_root(ChainType::Solana, "s", "/r");
    let ports: Vec<(u16, String)> =
        s.reserved_ports().unwrap().into_iter().map(|p| (p.port, p.label)).collect();
    assert_eq!(
        ports,
        vec![
            (8899, "RPC".to_string()),
            (9901, "Faucet".to_string()),
            (9902, "Gossip".to_string()),
            (9903, "Dynamic range".to_string())
        ]
    );
    let b = InstanceConfig::with_root(ChainType::Bitcoin, "b", "/r");
    let ports: Vec<u16> = b.reserved_ports().unwrap().iter().map(|p| p.port).collect();
    assert_eq!(ports, vec![18443, 18444]);
    let mut high = s.clone();
    high.rpc_port = 65000;
    assert!(matches!(high.reserved_ports(), Err(ChainError::Config(_))));
    let e = port_in_use(&ReservedPort { port: 8899, label: "RPC".to_string() });
    assert_eq!(
        e.message(),
        "Node management error: RPC port 8899 is already in use. Check for other running nodes or services."
    );
}

#[test]
fn snapshot_mark_stopped() {
    let cfg = InstanceConfig::with_root(ChainType::Bitcoin, "b", "/r");
    let mut info: InstanceInfo = cfg.snapshot(true);
    assert!(info.running);
    info.mark_stopped();
    assert!(!info.running);
    assert_eq!(info.rpc_port, 18443);
    let mut s = SolanaInstanceInfo::from_info(cfg.snapshot(true));
    s.mark_stopped();
    assert!(!s.running);
    assert_eq!(s.instance_id, "b");
}

struct Outcome {
    saved_balances: Vec<u64>,
    snapshot_running: bool,
    spawned: usize,
    reset: usize,
    result: Option<Result<(), ChainError>>,
}

/// Runs a start against a backend that is ready at once and funds every
/// account, applying registry publication to `registry`.
fn drive_start(o: &mut Orchestrator, cfg: InstanceConfig, registry: &mut NodeRegistry) -> Outcome {
    let status = registry.get(&cfg.node_id()).map(|n| n.status);
    let mut out = Outcome {
        saved_balances: Vec::new(),
        snapshot_running: false,
        spawned: 0,
        reset: 0,
        result: None,
    };
    let mut action = o.start(cfg, status);
    loop {
        let event = match action {
            StartAction::Finished(r) => {
                out.result = Some(r);
                return out;
            }
            StartAction::ResetInstanceDir { .. } => {
                out.reset += 1;
                StartEvent::Done
            }
            StartAction::SaveAccounts { balances, .. } => {
                out.saved_balances = balances;
                StartEvent::Done
            }
            StartAction::Spawn => {
                out.spawned += 1;
                StartEvent::Done
            }
            StartAction::WriteSnapshot { info, .. } => {
                out.snapshot_running = info.running;
                StartEvent::Done
            }
            StartAction::PollReady { .. } => StartEvent::Ready(true),
            StartAction::Fund { .. } => StartEvent::Funding(FundingOutcome::Funded),
            StartAction::RefreshBalances => {
                let n = o.account_balances().len();
                StartEvent::Balances(o.account_balances().iter().map(|b| Some(*b)).take(n).collect())
            }
            StartAction::Publish(entry) => {
                registry.register(entry);
                StartEvent::Done
            }
            _ => StartEvent::Done,
        };
        action = o.advance(event);
    }
}

fn dev_config() -> InstanceConfig {
    let mut cfg = InstanceConfig::with_root(ChainType::Solana, "dev", "/tmp/cf-lifecycle");
    cfg.accounts = 3;
    cfg.initial_balance = 10;
    cfg
}

#[test]
fn start_dev_funds_snapshots_and_publishes() {
    let mut registry = NodeRegistry::with_path("/tmp/cf-lifecycle/registry.json".to_string());
    let mut o = Orchestrator::new(dev_config());
    let out = drive_start(&mut o, dev_config(), &mut registry);
    assert!(matches!(out.result, Some(Ok(()))));
    assert_eq!(out.saved_balances, vec![10, 10, 10]);
    assert!(out.snapshot_running);
    assert!(o.is_running());
    let entry = registry.get("solana:dev").unwrap();
    assert_eq!(entry.status, NodeStatus::Running);
}

#[test]
fn stop_after_start_cleans_up_and_marks_stopped() {
    let mut registry = NodeRegistry::with_path("/tmp/cf-lifecycle/registry.json".to_string());
    let mut o = Orchestrator::new(dev_config());
    drive_start(&mut o, dev_config(), &mut registry);
    let actions = o.stop();
    assert_eq!(actions.len(), 4);
    assert!(matches!(actions[0], StopAction::Kill));
    for a in &actions {
        match a {
            StopAction::MarkRegistryStopped { node_id } => {
                assert_eq!(node_id, "solana:dev");
                registry.update_status(node_id, NodeStatus::Stopped);
            }
            StopAction::MarkSnapshotStopped { file } => {
                assert_eq!(file, "/tmp/cf-lifecycle/solana/instances/dev/instance.json")
            }
            StopAction::RemoveInstanceDir { dir } => {
                assert_eq!(dir, "/tmp/cf-lifecycle/solana/instances/dev")
            }
            StopAction::Kill => {}
        }
    }
    assert_eq!(registry.get("solana:dev").unwrap().status, NodeStatus::Stopped);
    assert!(!o.is_running());
}

#[test]
fn stop_twice_second_is_noop() {
    let mut registry = NodeRegistry::with_path("/tmp/cf-lifecycle/registry.json".to_string());
    let mut o = Orchestrator::new(dev_config());
    drive_start(&mut o, dev_config(), &mut registry);
    assert!(!o.stop().is_empty());
    let second = o.stop();
    assert!(second.is_empty());
}

#[test]
fn keep_data_skips_directory_removal() {
    let mut registry = NodeRegistry::with_path("/tmp/cf-lifecycle/registry.json".to_string());
    let mut o = Orchestrator::new(dev_config());
    o.set_keep_data(true);
    drive_start(&mut o, dev_config(), &mut registry);
    let actions = o.stop();
    assert_eq!(actions.len(), 3);
    assert!(!actions.iter().any(|a| matches!(a, StopAction::RemoveInstanceDir { .. })));
}

#[test]
fn start_refused_when_registry_has_it_running() {
    let mut registry = NodeRegistry::with_path("/tmp/cf-lifecycle/registry.json".to_string());
    let mut first = Orchestrator::new(dev_config());
    drive_start(&mut first, dev_config(), &mut registry);
    let mut second = Orchestrator::new(dev_config());
    let out = drive_start(&mut second, dev_config(), &mut registry);
    assert!(matches!(out.result, Some(Err(ChainError::AlreadyRunning))));
    assert_eq!(out.spawned, 0);
    assert_eq!(out.reset, 0);
    assert!(!second.is_running());
}

#[test]
fn start_refused_when_process_held() {
    let mut registry = NodeRegistry::with_path("/tmp/cf-lifecycle/registry.json".to_string());
    let mut o = Orchestrator::new(dev_config());
    drive_start(&mut o, dev_config(), &mut registry);
    let action = o.start(dev_config(), None);
    assert!(matches!(action, StartAction::Finished(Err(ChainError::AlreadyRunning))));
}

#[test]
fn early_exit_aborts_and_releases_the_process() {
    let mut o = Orchestrator::new(dev_config());
    let mut action = o.start(dev_config(), None);
    loop {
        let event = match action {
            StartAction::Finished(r) => {
                assert!(matches!(r, Err(ChainError::NodeManagement(_))));
                break;
            }
            StartAction::CheckEarlyExit { .. } => {
                StartEvent::Failed(ChainError::NodeManagement("exited".to_string()))
            }
            StartAction::WriteSnapshot { .. } | StartAction::Publish(_) => {
                panic!("nothing is published after an early exit")
            }
            _ => StartEvent::Done,
        };
        action = o.advance(event);
    }
    assert!(!o.is_running());
}

#[test]
fn readiness_timeout_fails_the_start() {
    let mut o = Orchestrator::new(dev_config());
    let mut action = o.start(dev_config(), None);
    let mut polls = 0;
    loop {
        let event = match action {
            StartAction::Finished(r) => {
                assert!(matches!(r, Err(ChainError::NodeManagement(_))));
                break;
            }
            StartAction::PollReady { .. } => {
                polls += 1;
                StartEvent::Ready(false)
            }
            StartAction::Publish(_) => panic!("nothing is published after a timeout"),
            _ => StartEvent::Done,
        };
        action = o.advance(event);
    }
    assert_eq!(polls, 60);
}

#[test]
fn partial_funding_still_publishes_with_error() {
    let mut registry = NodeRegistry::with_path("/tmp/cf-lifecycle/registry.json".to_string());
    let mut cfg = InstanceConfig::with_root(ChainType::Bitcoin, "btc", "/tmp/cf-lifecycle");
    cfg.accounts = 2;
    cfg.initial_balance = 5;
    let mut o = Orchestrator::new(cfg.clone());
    let mut action = o.start(cfg, None);
    let mut prepared = None;
    let mut settled = false;
    let result;
    loop {
        let event = match action {
            StartAction::Finished(r) => {
                result = r;
                break;
            }
            StartAction::PollReady { .. } => StartEvent::Ready(true),
            StartAction::PrepareFunds { blocks, need } => {
                prepared = Some((blocks, need));
                StartEvent::Done
            }
            StartAction::Fund { index, .. } => {
                if index == 1 {
                    StartEvent::Funding(FundingOutcome::Failed("no utxo".to_string()))
                } else {
                    StartEvent::Funding(FundingOutcome::Funded)
                }
            }
            StartAction::SettleFunds { confirmations } => {
                assert_eq!(confirmations, 6);
                settled = true;
                StartEvent::Done
            }
            StartAction::RefreshBalances => StartEvent::Balances(vec![None, None]),
            StartAction::Publish(entry) => {
                registry.register(entry);
                StartEvent::Done
            }
            _ => StartEvent::Done,
        };
        action = o.advance(event);
    }
    assert_eq!(prepared, Some((101, 2 * 5 + 2 * 100_000)));
    assert!(settled);
    assert!(matches!(result, Err(ChainError::Rpc(_))));
    assert_eq!(o.account_balances(), &vec![5, 0]);
    assert_eq!(registry.get("bitcoin:btc").unwrap().status, NodeStatus::Running);
}

#[test]
fn daemon_commands_per_chain() {
    let b = InstanceConfig::with_root(ChainType::Bitcoin, "btc", "/r");
    let cmd = b.daemon_command().unwrap();
    assert_eq!(cmd.program, "bitcoind");
    assert_eq!(
        cmd.args,
        vec![
            "-regtest",
            "-rpcport=18443",
            "-port=18444",
            "-datadir=/r/bitcoin/instances/btc/regtest-data",
            "-rpcuser=chainforge",
            "-rpcpassword=chainforge",
            "-server=1",
            "-txindex=1",
            "-fallbackfee=0.0001",
            "-daemon=0",
            "-printtoconsole=0"
        ]
    );
    let s = InstanceConfig::with_root(ChainType::Solana, "sol", "/r");
    let cmd = s.daemon_command().unwrap();
    assert_eq!(cmd.program, "solana-test-validator");
    assert_eq!(
        cmd.args,
        vec![
            "--rpc-port",
            "8899",
            "--faucet-port",
            "9901",
            "--gossip-port",
            "9902",
            "--dynamic-port-range",
            "9903-10403",
            "--ledger",
            "/r/solana/instances/sol/test-ledger",
            "--reset"
        ]
    );
    let mut high = s.clone();
    high.rpc_port = 65535;
    assert!(matches!(high.daemon_command(), Err(ChainError::Config(_))));
}

#[test]
fn early_exit_reports_failure_lines_or_status() {
    let log: Vec<String> = vec![
        "INFO starting".to_string(),
        "ERROR metrics unavailable".to_string(),
        "thread 'main' panicked at src/main.rs".to_string(),
        "ERROR Address already in use".to_string(),
    ];
    match early_exit_error(&log, "1", "/r/log") {
        ChainError::NodeManagement(m) => assert_eq!(
            m,
            "Daemon failed to start: thread 'main' panicked at src/main.rs\nERROR Address already in use"
        ),
        _ => panic!("expected a node management error"),
    }
    match early_exit_error(&vec!["fine".to_string()], "exit status: 3", "/r/log") {
        ChainError::NodeManagement(m) => assert_eq!(
            m,
            "Daemon process exited unexpectedly (exit code: exit status: 3). Check logs at: /r/log"
        ),
        _ => panic!("expected a node management error"),
    }
    assert!(contains_str("abc", ""));
    assert!(contains_str("xxERRORyy", "ERROR"));
    assert!(!contains_str("ERR", "ERROR"));
}

#[test]
fn spend_plan_selects_inputs_fee_and_change() {
    // three outputs: fee allowance 7_500; need 107_500
    let plan = plan_spend(&vec![50_000, 60_000, 900_000], 100_000).unwrap();
    assert_eq!(plan, SpendPlan { inputs: 2, fee: 7_500, change: 2_500 });
    // change at the dust limit is dropped
    let plan = plan_spend(&vec![103_500], 100_000).unwrap();
    assert_eq!(plan, SpendPlan { inputs: 1, fee: 2_500, change: 0 });
    assert!(matches!(plan_spend(&vec![], 1), Err(ChainError::Rpc(_))));
    assert!(matches!(plan_spend(&vec![100_000], 100_000), Err(ChainError::Rpc(_))));
}

#[test]
fn wallet_check_names_the_shortfall() {
    assert!(check_wallet(10, 10).is_ok());
    match check_wallet(9, 10) {
        Err(ChainError::Other(m)) => assert_eq!(
            m,
            "Insufficient wallet balance: 9 sats available, 10 sats needed (including tx fees)"
        ),
        _ => panic!("expected a shortfall"),
    }
}

#[test]
fn started_only_after_publication() {
    let mut registry = NodeRegistry::with_path("/tmp/cf-lifecycle/registry.json".to_string());
    let mut o = Orchestrator::new(dev_config());
    assert!(!o.is_started());
    drive_start(&mut o, dev_config(), &mut registry);
    assert!(o.is_started());
    o.stop();
    assert!(!o.is_started());
}

#[test]
fn lib_test_provider_creation() {
    let o = Orchestrator::new(InstanceConfig::with_instance(ChainType::Bitcoin, "default"));
    assert!(!o.is_running());
}

#[test]
fn lib_test_provider_with_config() {
    let mut config = InstanceConfig::with_root(ChainType::Bitcoin, "test", "/tmp/bitcoin-test");
    config.rpc_url = "http://localhost:19000".to_string();
    config.rpc_port = 19000;
    config.p2p_port = 19001;
    config.accounts = 5;
    config.initial_balance = 50 * 100_000_000;
    config.rpc_user = "test".to_string();
    config.rpc_password = "test".to_string();
    let o = Orchestrator::new(config);
    assert!(!o.is_running());
    assert_eq!(o.rpc_endpoint(), "http://localhost:19000");
}

#[test]
fn lib_test_get_accounts_when_not_started() {
    let o = Orchestrator::new(InstanceConfig::with_instance(ChainType::Bitcoin, "default"));
    assert_eq!(o.account_balances().len(), 0);
}

#[test]
fn lib_test_config_with_name() {
    let mut config = InstanceConfig::with_instance(ChainType::Bitcoin, "btc-dev");
    config.name = Some("Bitcoin Dev Node".to_string());
    assert_eq!(config.instance_id, "btc-dev");
    assert_eq!(config.name, Some("Bitcoin Dev Node".to_string()));
}

#[test]
fn lib_test_provider_with_instance() {
    let o = Orchestrator::new(InstanceConfig::with_instance(ChainType::Bitcoin, "my-test-instance"));
    assert!(!o.is_running());
    assert_eq!(o.rpc_endpoint(), "http://127.0.0.1:18443");
}

#[test]
fn solana_defaults() {
    let config = InstanceConfig::with_root(ChainType::Solana, "default", "/tmp/cf");
    assert_eq!(config.rpc_url, "http://localhost:8899");
    assert_eq!(config.rpc_port, 8899);
    assert_eq!(config.accounts, 10);
    assert_eq!(config.initial_balance, 100 * 1_000_000_000);
    assert!(config.mnemonic.is_none());
}

#[test]
fn funding_need_overflow_ends_the_start_with_config_error() {
    let mut cfg = InstanceConfig::with_root(ChainType::Bitcoin, "big", "/tmp/cf-lifecycle");
    cfg.accounts = 2;
    cfg.initial_balance = u64::MAX;
    let mut o = Orchestrator::new(cfg.clone());
    let mut action = o.start(cfg, None);
    loop {
        let event = match action {
            StartAction::Finished(r) => {
                assert!(matches!(r, Err(ChainError::Config(_))));
                break;
            }
            StartAction::PollReady { .. } => StartEvent::Ready(true),
            StartAction::PrepareFunds { .. } => panic!("no funding plan for an amount that overflows"),
            _ => StartEvent::Done,
        };
        action = o.advance(event);
    }
}

#[test]
fn failed_preflight_ends_with_that_error() {
    let mut o = Orchestrator::new(dev_config());
    let mut action = o.start(dev_config(), None);
    loop {
        let event = match action {
            StartAction::Finished(r) => {
                match r {
                    Err(ChainError::NodeManagement(m)) => assert!(m.starts_with("Faucet port 9901")),
                    _ => panic!("expected the port error"),
                }
                break;
            }
            StartAction::CheckPort(p) if p.port == 9901 => StartEvent::Failed(port_in_use(&p)),
            StartAction::Spawn => panic!("no spawn after a port conflict"),
            _ => StartEvent::Done,
        };
        action = o.advance(event);
    }
    assert!(!o.is_running());
}
