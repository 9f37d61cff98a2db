use chain_forge::chain::{ChainType, NodeStatus};
use chain_forge::registry::{save_plan, NodeInfo, NodeRegistry, RegistrySource, SaveStep};

fn create_test_registry() -> NodeRegistry {
    NodeRegistry::with_path("/tmp/registry-test/test_registry.json".to_string())
}

fn node(chain: ChainType, id: &str, name: Option<&str>, url: &str, port: u16, n: u32) -> NodeInfo {
    NodeInfo::new(chain, id, name.map(|s| s.to_string()), url.to_string(), port, n)
}

#[test]
fn test_node_info_creation() {
    let node = node(
        ChainType::Solana,
        "test-instance",
        Some("Test Node"),
        "http://localhost:8899",
        8899,
        10,
    );

    assert_eq!(node.node_id, "solana:test-instance");
    assert_eq!(node.display_name(), "Test Node");
    assert_eq!(node.chain, ChainType::Solana);
    assert_eq!(node.status, NodeStatus::Running);
    assert!(node.started_at.is_some());
}

#[test]
fn test_node_info_without_name() {
    let node = node(ChainType::Bitcoin, "btc-dev", None, "http://localhost:18443", 18443, 5);
    assert_eq!(node.display_name(), "btc-dev");
}

#[test]
fn test_register_and_list() {
    let mut registry = create_test_registry();
    let node = node(
        ChainType::Solana,
        "dev1",
        Some("Development"),
        "http://localhost:8899",
        8899,
        10,
    );

    registry.register(node.clone());

    let nodes = registry.list();
    assert_eq!(nodes.len(), 1);
    assert_eq!(nodes[0].node_id, "solana:dev1");
}

#[test]
fn test_unregister() {
    let mut registry = create_test_registry();
    let node = node(ChainType::Solana, "dev1", None, "http://localhost:8899", 8899, 10);

    registry.register(node);
    assert_eq!(registry.list().len(), 1);

    registry.unregister("solana:dev1");
    assert_eq!(registry.list().len(), 0);
}

#[test]
fn test_update_status() {
    let mut registry = create_test_registry();
    let node = node(ChainType::Bitcoin, "btc1", None, "http://localhost:18443", 18443, 5);

    registry.register(node);
    registry.update_status("bitcoin:btc1", NodeStatus::Stopped);

    let fetched = registry.get("bitcoin:btc1").unwrap();
    assert_eq!(fetched.status, NodeStatus::Stopped);
}

#[test]
fn update_status_of_unknown_id_changes_nothing() {
    let mut registry = create_test_registry();
    registry.register(node(ChainType::Bitcoin, "btc1", None, "u", 1, 1));
    registry.update_status("bitcoin:nope", NodeStatus::Stopped);
    let all = registry.list();
    assert_eq!(all.len(), 1);
    assert_eq!(all[0].status, NodeStatus::Running);
}

#[test]
fn test_list_by_chain() {
    let mut registry = create_test_registry();
    let solana_node = node(ChainType::Solana, "sol1", None, "http://localhost:8899", 8899, 10);
    let bitcoin_node = node(ChainType::Bitcoin, "btc1", None, "http://localhost:18443", 18443, 5);

    registry.register(solana_node);
    registry.register(bitcoin_node);

    let solana_nodes = registry.list_by_chain(ChainType::Solana);
    assert_eq!(solana_nodes.len(), 1);
    assert_eq!(solana_nodes[0].chain, ChainType::Solana);

    let bitcoin_nodes = registry.list_by_chain(ChainType::Bitcoin);
    assert_eq!(bitcoin_nodes.len(), 1);
    assert_eq!(bitcoin_nodes[0].chain, ChainType::Bitcoin);
}

#[test]
fn test_clear_stopped() {
    let mut registry = create_test_registry();
    let mut node1 = node(ChainType::Solana, "sol1", None, "http://localhost:8899", 8899, 10);
    node1.status = NodeStatus::Stopped;
    let node2 = node(ChainType::Bitcoin, "btc1", None, "http://localhost:18443", 18443, 5);

    registry.register(node1);
    registry.register(node2);
    assert_eq!(registry.list().len(), 2);

    registry.clear_stopped();
    let remaining = registry.list();
    assert_eq!(remaining.len(), 1);
    assert_eq!(remaining[0].chain, ChainType::Bitcoin);
}

#[test]
fn clear_stopped_keeps_unknown_and_running_unchanged() {
    let mut registry = create_test_registry();
    let mut a = node(ChainType::Solana, "a", None, "ua", 1, 1);
    a.status = NodeStatus::Unknown;
    let mut b = node(ChainType::Solana, "b", None, "ub", 2, 2);
    b.status = NodeStatus::Stopped;
    let c = node(ChainType::Bitcoin, "c", Some("C"), "uc", 3, 3);
    registry.register(a);
    registry.register(b);
    registry.register(c);
    registry.clear_stopped();
    assert!(registry.get("solana:b").is_none());
    assert_eq!(registry.get("solana:a").unwrap().status, NodeStatus::Unknown);
    let c2 = registry.get("bitcoin:c").unwrap();
    assert_eq!(c2.rpc_url, "uc");
    assert_eq!(c2.name.as_deref(), Some("C"));
}

#[test]
fn register_then_get_then_unregister() {
    let mut registry = create_test_registry();
    let e = node(ChainType::Solana, "dev", Some("Dev"), "http://localhost:8899", 8899, 3);
    registry.register(e.clone());
    let got = registry.get("solana:dev").unwrap();
    assert_eq!(got.node_id, e.node_id);
    assert_eq!(got.name, e.name);
    assert_eq!(got.rpc_port, e.rpc_port);
    assert_eq!(got.accounts_count, e.accounts_count);
    assert_eq!(got.started_at, e.started_at);
    registry.unregister("solana:dev");
    assert!(registry.get("solana:dev").is_none());
}

#[test]
fn register_same_id_replaces_and_keeps_others() {
    let mut registry = create_test_registry();
    registry.register(node(ChainType::Solana, "a", None, "u1", 1, 1));
    registry.register(node(ChainType::Solana, "b", None, "u2", 2, 2));
    registry.register(node(ChainType::Solana, "a", None, "u3", 3, 3));
    assert_eq!(registry.list().len(), 2);
    assert_eq!(registry.get("solana:a").unwrap().rpc_url, "u3");
    assert_eq!(registry.get("solana:b").unwrap().rpc_url, "u2");
}

#[test]
fn mark_all_stopped_touches_one_chain() {
    let mut registry = create_test_registry();
    registry.register(node(ChainType::Solana, "s", None, "u", 1, 1));
    registry.register(node(ChainType::Bitcoin, "b", None, "u", 2, 1));
    registry.mark_all_stopped(ChainType::Solana);
    assert_eq!(registry.get("solana:s").unwrap().status, NodeStatus::Stopped);
    assert_eq!(registry.get("bitcoin:b").unwrap().status, NodeStatus::Running);
}

#[test]
fn backup_and_temp_paths_sit_beside_the_registry() {
    let registry = create_test_registry();
    assert_eq!(registry.registry_file(), "/tmp/registry-test/test_registry.json");
    assert_eq!(registry.backup_file(), "/tmp/registry-test/test_registry.json.bak");
    assert_eq!(registry.temp_file(), "/tmp/registry-test/test_registry.json.tmp");
    let plain = NodeRegistry::with_path("/tmp/x.y/reg".to_string());
    assert_eq!(plain.backup_file(), "/tmp/x.y/reg.json.bak");
    let hidden = NodeRegistry::with_path("/tmp/.reg".to_string());
    assert_eq!(hidden.backup_file(), "/tmp/.reg.json.bak");
    assert!(NodeRegistry::new().registry_file().ends_with(".chain-forge/registry.json"));
}

#[test]
fn load_corrupt_primary_falls_back_to_backup() {
    let backup = vec![node(ChainType::Bitcoin, "b1", None, "u", 1, 1)];
    let mut from_corrupt = create_test_registry();
    from_corrupt.load(RegistrySource::Corrupt, RegistrySource::Parsed(backup.clone()));
    let mut from_valid = create_test_registry();
    from_valid.load(RegistrySource::Parsed(backup), RegistrySource::Missing);
    assert_eq!(from_corrupt.list().len(), 1);
    assert_eq!(from_corrupt.list()[0].node_id, from_valid.list()[0].node_id);

    let mut empty = create_test_registry();
    empty.register(node(ChainType::Solana, "old", None, "u", 1, 1));
    empty.load(RegistrySource::Corrupt, RegistrySource::Corrupt);
    assert_eq!(empty.list().len(), 0);
    empty.load(RegistrySource::Missing, RegistrySource::Parsed(vec![node(ChainType::Solana, "x", None, "u", 1, 1)]));
    assert_eq!(empty.list().len(), 0);
}

#[test]
fn load_keeps_the_last_entry_of_a_repeated_id() {
    let mut r = create_test_registry();
    let entries = vec![
        node(ChainType::Solana, "a", None, "first", 1, 1),
        node(ChainType::Solana, "a", None, "second", 1, 1),
    ];
    r.load(RegistrySource::Parsed(entries), RegistrySource::Missing);
    assert_eq!(r.list().len(), 1);
    assert_eq!(r.get("solana:a").unwrap().rpc_url, "second");
}

#[test]
fn save_plan_backs_up_then_renames_last() {
    assert_eq!(
        save_plan(true),
        vec![SaveStep::CopyPrimaryToBackup, SaveStep::WriteTemp, SaveStep::RenameTempToPrimary]
    );
    assert_eq!(save_plan(false), vec![SaveStep::WriteTemp, SaveStep::RenameTempToPrimary]);
}
