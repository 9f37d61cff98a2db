use chain_forge::api::{sort_and_dedup, TransactionInfo, TxOrder};
use chain_forge::chain::{ChainType, Network, NodeStatus};
use chain_forge::error::ChainError;
use chain_forge::paths::{CONFIG_FILE_NAME, DATA_DIR_NAME};
use chain_forge::registry::NodeRegistry;
use chain_forge::validation::{sanitize_lowered, sanitize_name, validate_name};
use chain_forge::accounts::derivation_path;
use chain_forge::accounts::{apply_balances, with_target_balances, Account, AccountRecord};
use chain_forge::api::NodeInfoResponse;
use chain_forge::registry::NodeInfo;
use chain_forge::api::{probe_status, HealthCheckResponse};
use std::str::FromStr;

#[test]
fn test_node_id_helper() {
    assert_eq!(NodeRegistry::node_id(ChainType::Solana, "dev"), "solana:dev");
    assert_eq!(NodeRegistry::node_id(ChainType::Bitcoin, "test"), "bitcoin:test");
}

#[test]
fn test_chain_type_display() {
    assert_eq!(ChainType::Solana.as_str(), "solana");
    assert_eq!(ChainType::Bitcoin.as_str(), "bitcoin");
}

#[test]
fn test_node_status_display() {
    assert_eq!(NodeStatus::Running.as_str(), "running");
    assert_eq!(NodeStatus::Stopped.as_str(), "stopped");
    assert_eq!(NodeStatus::Unknown.as_str(), "unknown");
}

#[test]
fn test_network_as_str() {
    assert_eq!(Network::Localnet.as_str(), "localnet");
    assert_eq!(Network::Devnet.as_str(), "devnet");
    assert_eq!(Network::Testnet.as_str(), "testnet");
    assert_eq!(Network::Mainnet.as_str(), "mainnet");
}

#[test]
fn test_network_display() {
    assert_eq!(Network::Localnet.to_string(), "localnet");
    assert_eq!(Network::Devnet.to_string(), "devnet");
    assert_eq!(Network::Testnet.to_string(), "testnet");
    assert_eq!(Network::Mainnet.to_string(), "mainnet");
}

#[test]
fn test_network_from_str() {
    assert_eq!(Network::from_str("localnet").unwrap(), Network::Localnet);
    assert_eq!(Network::from_str("local").unwrap(), Network::Localnet);
    assert_eq!(Network::from_str("LOCALNET").unwrap(), Network::Localnet);

    assert_eq!(Network::from_str("devnet").unwrap(), Network::Devnet);
    assert_eq!(Network::from_str("dev").unwrap(), Network::Devnet);

    assert_eq!(Network::from_str("testnet").unwrap(), Network::Testnet);
    assert_eq!(Network::from_str("test").unwrap(), Network::Testnet);

    assert_eq!(Network::from_str("mainnet").unwrap(), Network::Mainnet);
    assert_eq!(Network::from_str("main").unwrap(), Network::Mainnet);

    assert!(Network::from_str("invalid").is_err());
}

#[test]
fn network_parse_error_names_the_input() {
    assert_eq!(Network::parse("Bogus").unwrap_err(), "Invalid network: Bogus");
    assert_eq!(Network::from_lowered("main"), Some(Network::Mainnet));
    assert_eq!(Network::from_lowered("MAIN"), None);
}

#[test]
fn test_network_equality() {
    assert_eq!(Network::Localnet, Network::Localnet);
    assert_ne!(Network::Localnet, Network::Devnet);
}

#[test]
fn test_network_copy() {
    let network = Network::Mainnet;
    let copied = network;
    assert_eq!(network, copied);
}

#[test]
fn test_valid_names() {
    assert!(validate_name("my-node").is_ok());
    assert!(validate_name("dev-1").is_ok());
    assert!(validate_name("test-server-2").is_ok());
    assert!(validate_name("node").is_ok());
    assert!(validate_name("a").is_ok());
    assert!(validate_name("123").is_ok());
    assert!(validate_name("my-node-123").is_ok());
}

#[test]
fn test_invalid_names() {
    assert!(validate_name("").is_err());
    assert!(validate_name("My Node").is_err());
    assert!(validate_name("my_node").is_err());
    assert!(validate_name("my node").is_err());
    assert!(validate_name("-node").is_err());
    assert!(validate_name("node-").is_err());
    assert!(validate_name("my--node").is_err());
    assert!(validate_name("MyNode").is_err());
    assert!(validate_name("node@1").is_err());
}

#[test]
fn invalid_name_reasons() {
    assert_eq!(validate_name("").unwrap_err().reason, "name cannot be empty");
    assert_eq!(
        validate_name("-a").unwrap_err().reason,
        "name cannot start or end with a hyphen"
    );
    assert_eq!(
        validate_name("a--b").unwrap_err().reason,
        "name cannot contain consecutive hyphens"
    );
    assert_eq!(
        validate_name("aB").unwrap_err().reason,
        "uppercase letters are not allowed, use lowercase"
    );
    assert_eq!(
        validate_name("a b").unwrap_err().reason,
        "spaces are not allowed, use hyphens instead"
    );
    assert_eq!(
        validate_name("a_b").unwrap_err().reason,
        "underscores are not allowed, use hyphens instead"
    );
    let e = validate_name("node@1").unwrap_err();
    assert_eq!(e.reason, "character '@' is not allowed");
    assert_eq!(e.value, "node@1");
    assert_eq!(
        e.message(),
        "Invalid name 'node@1': character '@' is not allowed. Use only lowercase letters, numbers, and hyphens (e.g., 'my-node-1')."
    );
}

#[test]
fn test_sanitize_name() {
    assert_eq!(sanitize_name("My Node"), "my-node");
    assert_eq!(sanitize_name("my_node"), "my-node");
    assert_eq!(sanitize_name("My  Node"), "my-node");
    assert_eq!(sanitize_name("  my  node  "), "my-node");
    assert_eq!(sanitize_name("MyNode123"), "mynode123");
    assert_eq!(sanitize_name("node@#$%test"), "nodetest");
    assert_eq!(sanitize_name("--my--node--"), "my-node");
}

#[test]
fn sanitize_lowered_drops_what_a_name_cannot_hold() {
    assert_eq!(sanitize_lowered("Ab_c"), "b-c");
    assert_eq!(sanitize_lowered(""), "");
    assert_eq!(sanitize_lowered("---"), "");
}

#[test]
fn test_config_file_constants() {
    assert_eq!(CONFIG_FILE_NAME, "chain-forge.toml");
    assert_eq!(DATA_DIR_NAME, ".chain-forge");
}

#[test]
fn test_error_display() {
    let err = ChainError::Config("test config error".to_string());
    assert_eq!(err.message(), "Configuration error: test config error");

    let err = ChainError::NotRunning;
    assert_eq!(err.message(), "Chain not running");

    let err = ChainError::AlreadyRunning;
    assert_eq!(err.message(), "Chain already running");
}

#[test]
fn test_result_type() {
    fn returns_ok() -> Result<String, ChainError> {
        Ok("success".to_string())
    }

    fn returns_err() -> Result<String, ChainError> {
        Err(ChainError::Other("error".to_string()))
    }

    assert!(returns_ok().is_ok());
    assert!(returns_err().is_err());
}

#[test]
fn test_bitcoin_fee_absolute_value() {
    // Bitcoin Core returns fees as negative values; we convert to absolute
    let btc_fee = Some(-0.00005_f64);
    let fee = btc_fee.map(|f| f.abs()).unwrap_or(0.0);
    assert_eq!(fee, 0.00005);

    let no_fee: Option<f64> = None;
    let fee = no_fee.map(|f| f.abs()).unwrap_or(0.0);
    assert_eq!(fee, 0.0);
}

fn tx(signature: &str, slot: u64, block_time: Option<i64>, account: &str) -> TransactionInfo {
    TransactionInfo {
        signature: signature.to_string(),
        slot,
        err: None,
        memo: None,
        block_time,
        confirmation_status: Some("1 confirmations".to_string()),
        account: account.to_string(),
    }
}

#[test]
fn test_transaction_dedup_and_sort() {
    let transactions = vec![
        tx("tx1", 100, Some(1000), "addr1"),
        tx("tx2", 200, Some(2000), "addr2"),
        tx("tx1", 100, Some(1000), "addr3"),
    ];

    let transactions = sort_and_dedup(&transactions, TxOrder::ByBlockTime);

    assert_eq!(transactions.len(), 2);
    // Most recent first
    assert_eq!(transactions[0].signature, "tx2");
    assert_eq!(transactions[1].signature, "tx1");
}

#[test]
fn sort_by_slot_is_stable_and_unknown_times_sort_last() {
    let txs = vec![
        tx("a", 5, None, "x"),
        tx("b", 7, Some(1), "x"),
        tx("c", 5, Some(3), "y"),
    ];
    let by_slot = sort_and_dedup(&txs, TxOrder::BySlot);
    let sigs: Vec<&str> = by_slot.iter().map(|t| t.signature.as_str()).collect();
    assert_eq!(sigs, vec!["b", "a", "c"]);
    let by_time = sort_and_dedup(&txs, TxOrder::ByBlockTime);
    let sigs: Vec<&str> = by_time.iter().map(|t| t.signature.as_str()).collect();
    assert_eq!(sigs, vec!["c", "b", "a"]);
    assert!(sort_and_dedup(&Vec::new(), TxOrder::BySlot).is_empty());
}

#[test]
fn derivation_paths_per_chain() {
    for i in 0..5u32 {
        assert_eq!(derivation_path(ChainType::Bitcoin, i), format!("m/44'/0'/0'/0/{}", i));
        assert_eq!(derivation_path(ChainType::Solana, i), format!("m/44'/501'/{}'/0'", i));
    }
}

#[test]
fn account_records_take_target_then_reported_balances() {
    let rec = |a: &str| AccountRecord {
        address: a.to_string(),
        secret: "s".to_string(),
        mnemonic: None,
        derivation_path: Some("m/0".to_string()),
        balance: 0,
    };
    let mut accounts = vec![rec("a"), rec("b")];
    with_target_balances(&mut accounts, 10);
    assert_eq!(accounts[0].balance, 10);
    assert_eq!(accounts[1].balance, 10);
    apply_balances(&mut accounts, &vec![3, 4]);
    assert_eq!(accounts[1].balance, 4);
    assert_eq!(accounts[1].address(), "b");
    assert_eq!(accounts[1].derivation_path(), Some("m/0".to_string()));
}

#[test]
fn node_info_response_names_chain_status_and_time() {
    let mut n = NodeInfo::new(ChainType::Bitcoin, "b", None, "u".to_string(), 1, 2);
    n.started_at = Some(0);
    n.status = NodeStatus::Stopped;
    let r = NodeInfoResponse::from_info(n);
    assert_eq!(r.chain, "bitcoin");
    assert_eq!(r.status, "stopped");
    assert_eq!(r.started_at.as_deref(), Some("1970-01-01T00:00:00+00:00"));
}

#[test]
fn health_tally_counts_probed_statuses() {
    let statuses = vec![
        probe_status(true, NodeStatus::Stopped),
        probe_status(false, NodeStatus::Running),
        probe_status(false, NodeStatus::Unknown),
        probe_status(false, NodeStatus::Stopped),
    ];
    let h = HealthCheckResponse::tally(&statuses);
    assert_eq!(h, HealthCheckResponse { total: 4, running: 1, stopped: 2, unknown: 1 });
}
