use txio_cli::chains::{
    AptosAdapter, AptosCallError, ChainFactory, ChainKind, EthereumAdapter, SelectedAdapter,
    SolanaAdapter, SorobanAdapter,
};
use txio_cli::commands::{
    admin_error, call_params, queried_address, switch_chain, AdminError, SwitchOutcome,
};
use txio_cli::json::{Json, JsonNumber};
use txio_cli::network::Network;

#[test]
fn horizon_url_mainnet_returns_mainnet_horizon() {
    let adapter = SorobanAdapter::with_rpc(None, Network::Mainnet);
    assert_eq!(adapter.horizon_url().unwrap(), "https://horizon.stellar.org");
}

#[test]
fn horizon_url_mainnet_with_custom_rpc_still_returns_mainnet_horizon() {
    let adapter = SorobanAdapter::with_rpc(
        Some("https://my-node.example.com".to_string()),
        Network::Mainnet,
    );
    assert_eq!(adapter.horizon_url().unwrap(), "https://horizon.stellar.org");
}

#[test]
fn horizon_url_testnet_returns_testnet_horizon() {
    let adapter = SorobanAdapter::with_rpc(None, Network::Testnet);
    assert_eq!(adapter.horizon_url().unwrap(), "https://horizon-testnet.stellar.org");
}

#[test]
fn horizon_url_devnet_returns_error() {
    let adapter = SorobanAdapter::with_rpc(None, Network::Devnet);
    let err = adapter.horizon_url().unwrap_err();
    assert!(
        err.message().contains("not available"),
        "expected 'not available' error, got: {}",
        err.message()
    );
}

#[test]
fn horizon_url_localnet_returns_error() {
    let adapter = SorobanAdapter::with_rpc(None, Network::Localnet);
    let err = adapter.horizon_url().unwrap_err();
    assert!(
        err.message().contains("not available"),
        "expected 'not available' error, got: {}",
        err.message()
    );
}

#[test]
fn with_rpc_stores_network() {
    let adapter = SorobanAdapter::with_rpc(None, Network::Testnet);
    assert_eq!(adapter.network(), Network::Testnet);
}

#[test]
fn with_rpc_custom_url_uses_network_for_horizon() {
    let adapter = SorobanAdapter::with_rpc(
        Some("https://custom-soroban-rpc.example.com".to_string()),
        Network::Mainnet,
    );
    assert_eq!(adapter.horizon_url().unwrap(), "https://horizon.stellar.org");
    assert_eq!(adapter.rpc_url(), "https://custom-soroban-rpc.example.com");
}

#[test]
fn horizon_error_names_the_network() {
    let err = SorobanAdapter::with_rpc(None, Network::Devnet).horizon_url().unwrap_err();
    assert_eq!(
        err.message(),
        "Horizon API is not available for Devnet network; balance, account, and history commands require mainnet or testnet"
    );
}

#[test]
fn default_endpoints_per_network() {
    assert_eq!(EthereumAdapter::new().rpc_url(), "https://eth.llamarpc.com");
    assert_eq!(
        EthereumAdapter::with_rpc(None, Network::Testnet).rpc_url(),
        "https://rpc.sepolia.org"
    );
    assert_eq!(
        SolanaAdapter::with_rpc(None, Network::Devnet).rpc_url(),
        "https://api.devnet.solana.com"
    );
    assert_eq!(
        AptosAdapter::with_rpc(None, Network::Localnet).rpc_url(),
        "http://127.0.0.1:8080/v1"
    );
    assert_eq!(
        SorobanAdapter::with_rpc(None, Network::Devnet).rpc_url(),
        "https://futurenet.soroban-rpc.stellar.org"
    );
    assert_eq!(
        SolanaAdapter::with_rpc(Some("http://mine".to_string()), Network::Mainnet).rpc_url(),
        "http://mine"
    );
}

#[test]
fn list_chains_in_order() {
    assert_eq!(
        ChainFactory::list_chains(),
        vec!["sui", "ethereum", "solana", "aptos", "soroban"]
    );
}

#[test]
fn names_and_aliases_select_chains_in_any_case() {
    assert_eq!(ChainFactory::chain_named("ETH"), Some(ChainKind::Ethereum));
    assert_eq!(ChainFactory::chain_named("Stellar"), Some(ChainKind::Soroban));
    assert_eq!(ChainFactory::chain_named("sol"), Some(ChainKind::Solana));
    assert_eq!(ChainFactory::chain_named("Sui"), Some(ChainKind::Sui));
    assert_eq!(ChainFactory::chain_named("aptos"), Some(ChainKind::Aptos));
    assert_eq!(ChainFactory::chain_named("bitcoin"), None);
    assert_eq!(ChainFactory::chain_from_lowercase("ETH"), None);
}

#[test]
fn typo_gets_a_suggestion() {
    assert_eq!(ChainFactory::suggest_chain("ethreum"), Some("ethereum"));
    assert_eq!(ChainFactory::suggest_chain("solan"), Some("solana"));
    assert_eq!(ChainFactory::suggest_chain("zzzzzz"), None);
}

#[test]
fn selection_prefers_the_last_of_equal_maxima() {
    let threshold = txio_cli::chains::SUGGESTION_THRESHOLD_BITS;
    assert_eq!(ChainFactory::select_suggestion(&vec![threshold, threshold - 1]), None);
    assert_eq!(ChainFactory::select_suggestion(&vec![threshold + 5, threshold + 9, threshold + 9, 0]), Some(2));
    assert_eq!(ChainFactory::select_suggestion(&vec![]), None);
}

#[test]
fn get_adapter_builds_or_refuses() {
    match ChainFactory::get_adapter("Ethereum", None, Network::Testnet) {
        Ok(SelectedAdapter::Ethereum(a)) => assert_eq!(a.rpc_url(), "https://rpc.sepolia.org"),
        other => panic!("unexpected {other:?}"),
    }
    match ChainFactory::get_adapter("soroban", Some("http://x".to_string()), Network::Devnet) {
        Ok(SelectedAdapter::Soroban(a)) => {
            assert_eq!(a.rpc_url(), "http://x");
            assert_eq!(a.network(), Network::Devnet);
        }
        other => panic!("unexpected {other:?}"),
    }
    let err = ChainFactory::get_adapter("ethreum", None, Network::Mainnet).unwrap_err();
    assert_eq!(err.message(), "Unknown chain 'ethreum'\n\nDid you mean:\n  ethereum");
    let err = ChainFactory::get_adapter("qqq", None, Network::Mainnet).unwrap_err();
    assert_eq!(err.message(), "Unknown chain 'qqq'");
}

#[test]
fn aptos_raw_calls_take_no_params() {
    let a = AptosAdapter::with_rpc(Some("http://node/v1".to_string()), Network::Mainnet);
    assert_eq!(a.raw_call_url("blocks", &Json::Null).unwrap(), "http://node/v1/blocks");
    assert_eq!(a.raw_call_url("x", &Json::Array(vec![])).unwrap(), "http://node/v1/x");
    assert_eq!(
        a.raw_call_url("x", &Json::Array(vec![Json::Bool(true)])).unwrap_err(),
        AptosCallError::ParamsNotSupported
    );
    assert_eq!(
        a.raw_call_url("x", &Json::Number(JsonNumber::PosInt(0))).unwrap_err(),
        AptosCallError::ParamsNotSupported
    );
    let v = a.with_verbose(true);
    assert!(v.verbose());
    assert_eq!(v.rpc_url(), "http://node/v1");
}

#[test]
fn ethereum_names_are_not_resolved_yet() {
    assert_eq!(EthereumAdapter::new().resolve_name("vitalik.eth"), None);
}

#[test]
fn switching_chains() {
    assert_eq!(switch_chain("Solana"), SwitchOutcome::Switched("solana".to_string()));
    assert_eq!(switch_chain("eth"), SwitchOutcome::Unknown { suggestion: Some("ethereum") });
    assert_eq!(switch_chain("qqq"), SwitchOutcome::Unknown { suggestion: None });
}

#[test]
fn admin_statuses() {
    assert_eq!(admin_error(401), Some(AdminError::SessionExpired));
    assert_eq!(admin_error(403), Some(AdminError::AdminRequired));
    assert_eq!(admin_error(204), None);
    assert_eq!(admin_error(500), Some(AdminError::Failed(500)));
}

#[test]
fn request_builders() {
    let soroban = SorobanAdapter::new();
    let r = soroban.block_request(Some(7));
    assert_eq!(r.method, "getLedgers");
    let r = soroban.block_request(None);
    assert_eq!(r.method, "getLatestLedger");
    assert_eq!(soroban.gas_price_request().method, "getFeeStats");
    assert_eq!(soroban.transaction_request("h").method, "getTransaction");
    assert_eq!(EthereumAdapter::new().balance_request("0x1").method, "eth_getBalance");
    assert_eq!(SolanaAdapter::new().balance_request("a").method, "getBalance");
    match txio_cli::chains::rpc_envelope("m", Json::Null) {
        Json::Object(m) => {
            let keys: Vec<&str> = m.iter().map(|(k, _)| k.as_str()).collect();
            assert_eq!(keys, vec!["jsonrpc", "id", "method", "params"]);
        }
        other => panic!("unexpected {other:?}"),
    }
}

#[test]
fn queried_address_prefers_the_resolved_one() {
    let q = queried_address(Some("0xabc".to_string()), "alice.sui".to_string());
    assert_eq!(q.address, "0xabc");
    assert!(!q.warn_unresolved);
    let q = queried_address(None, "alice.sui".to_string());
    assert_eq!(q.address, "alice.sui");
    assert!(q.warn_unresolved);
    let q = queried_address(None, "0xabc".to_string());
    assert!(!q.warn_unresolved);
}

#[test]
fn raw_call_params_default_to_an_empty_array() {
    assert!(matches!(call_params(None), Json::Array(a) if a.is_empty()));
    assert!(matches!(call_params(Some(Json::Bool(true))), Json::Bool(true)));
}
