use txio_cli::amounts::format_units_fixed;
use txio_cli::chains::ChainKind;
use txio_cli::json::{Json, JsonNumber};
use txio_cli::network::{resolve_network, Network};
use txio_cli::results::{
    aptos_balance_octas, balance_report, coin_type_label, eth_gas_price_wei_from_rpc_result,
    eth_wei_from_rpc_result, ethereum_gas_wei, format_sui_coin_balance_display, gas_report,
    is_unresolved_name, sol_lamports_from_rpc_result, sui_coin_rows_from_rpc_result,
    sui_gas_mist, truncate_utf8_for_display, BalanceReport, CoinTypeLabel, GasReport,
};

fn s(text: &str) -> Json {
    Json::String(text.to_string())
}

fn n(value: u64) -> Json {
    Json::Number(JsonNumber::PosInt(value))
}

fn obj(members: Vec<(&str, Json)>) -> Json {
    Json::Object(members.into_iter().map(|(k, v)| (k.to_string(), v)).collect())
}

#[test]
fn explicit_flag_beats_persisted_and_default() {
    let resolved = resolve_network(Some(Network::Testnet), Some("mainnet".to_string()));
    assert_eq!(resolved, Network::Testnet);
}

#[test]
fn persisted_network_used_when_no_flag() {
    let resolved = resolve_network(None, Some("devnet".to_string()));
    assert_eq!(resolved, Network::Devnet);
}

#[test]
fn unrecognized_persisted_value_falls_back_to_mainnet() {
    let resolved = resolve_network(None, Some("garbage".to_string()));
    assert_eq!(resolved, Network::Mainnet);
}

#[test]
fn nothing_settled_defaults_to_mainnet() {
    let resolved = resolve_network(None, None);
    assert_eq!(resolved, Network::Mainnet);
}

#[test]
fn truncates_multi_byte_utf8_input_without_panicking() {
    let input = "0x2::🍕::coin::very_long_type_name";
    let output = truncate_utf8_for_display(input, 10, 10);

    assert!(output.contains("..."));
    assert!(output.chars().count() < input.chars().count());
}

#[test]
fn leaves_short_strings_unchanged() {
    let input = "0x2::sui::SUI";
    assert_eq!(truncate_utf8_for_display(input, 10, 10), input);
}

#[test]
fn eth_wei_from_rpc_parses_hex_quantity() {
    assert_eq!(
        eth_wei_from_rpc_result(&s("0xde0b6b3a7640000")),
        Some(1_000_000_000_000_000_000u128)
    );
    assert_eq!(eth_wei_from_rpc_result(&s("0x0")), Some(0));
    assert_eq!(eth_wei_from_rpc_result(&s("0x")), Some(0));
    assert_eq!(eth_wei_from_rpc_result(&s("not-hex")), None);
    assert_eq!(eth_wei_from_rpc_result(&obj(vec![("value", n(1))])), None);
}

#[test]
fn sol_lamports_from_rpc_parses_value_field() {
    assert_eq!(
        sol_lamports_from_rpc_result(&obj(vec![("value", n(1_500_000_000)), ("context", obj(vec![]))])),
        Some(1_500_000_000)
    );
    assert_eq!(sol_lamports_from_rpc_result(&obj(vec![("value", s("nope"))])), None);
    assert_eq!(sol_lamports_from_rpc_result(&s("0x1")), None);
}

#[test]
fn sui_coin_rows_and_sui_display() {
    let payload = Json::Array(vec![
        obj(vec![
            ("coinType", s("0x2::sui::SUI")),
            ("coinObjectCount", n(2)),
            ("totalBalance", s("1500000000")),
        ]),
        obj(vec![
            ("coinType", s("0xabc::usdc::USDC")),
            ("coinObjectCount", n(1)),
            ("totalBalance", s("42")),
        ]),
    ]);
    let rows = sui_coin_rows_from_rpc_result(&payload).expect("array");
    assert_eq!(rows.len(), 2);
    assert_eq!(rows[0].coin_object_count, 2);
    assert_eq!(format_sui_coin_balance_display(&rows[0]), "1.5000 SUI");
    assert_eq!(format_sui_coin_balance_display(&rows[1]), "42");
}

#[test]
fn eth_balance_display_units_match_prior_precision_fix() {
    let wei = eth_wei_from_rpc_result(&s("0xde0b6b3a7640000")).unwrap();
    assert_eq!(format_units_fixed(wei, 18, 4), "1.0000");
}

#[test]
fn aptos_balance_octas_parses_coin_store() {
    let value = Json::Array(vec![obj(vec![
        ("type", s("0x1::coin::CoinStore<0x1::aptos_coin::AptosCoin>")),
        ("data", obj(vec![("coin", obj(vec![("value", s("100000000"))]))])),
    ])]);
    assert_eq!(aptos_balance_octas(&value), Some(100_000_000u128));
}

#[test]
fn aptos_balance_octas_returns_none_when_missing() {
    assert!(aptos_balance_octas(&Json::Array(vec![obj(vec![("type", s("other"))])])).is_none());
    assert!(aptos_balance_octas(&s("not array")).is_none());
}

#[test]
fn aptos_balance_octas_handles_malformed_gracefully() {
    let value = Json::Array(vec![obj(vec![
        ("type", s("0x1::coin::CoinStore<0x1::aptos_coin::AptosCoin>")),
        ("data", obj(vec![("coin", obj(vec![("value", s("invalid"))]))])),
    ])]);
    assert_eq!(aptos_balance_octas(&value), None);
}

#[test]
fn sui_gas_mist_parses_string_and_number() {
    assert_eq!(sui_gas_mist(&s("1000000000")), Some(1_000_000_000u64));
    assert_eq!(sui_gas_mist(&n(1_000_000_000u64)), Some(1_000_000_000u64));
    assert_eq!(sui_gas_mist(&s("0")), Some(0u64));
}

#[test]
fn sui_gas_mist_returns_none_for_invalid() {
    assert!(sui_gas_mist(&s("not a number")).is_none());
    assert!(sui_gas_mist(&obj(vec![])).is_none());
}

#[test]
fn ethereum_gas_wei_parses_hex() {
    assert_eq!(ethereum_gas_wei(&s("0x3b9aca00")), Some(1_000_000_000u128));
    assert_eq!(ethereum_gas_wei(&s("3b9aca00")), Some(1_000_000_000u128));
    assert_eq!(ethereum_gas_wei(&s("0x")), Some(0u128));
}

#[test]
fn ethereum_gas_wei_returns_none_for_invalid() {
    assert!(ethereum_gas_wei(&s("not hex")).is_none());
    assert!(ethereum_gas_wei(&n(123u64)).is_none());
}

#[test]
fn hex_quantities_follow_integer_parsing_rules() {
    // every leading 0x goes, one '+' is allowed, case does not matter
    assert_eq!(eth_wei_from_rpc_result(&s("0x0x1F")), Some(31));
    assert_eq!(eth_wei_from_rpc_result(&s("0x+ff")), Some(255));
    assert_eq!(eth_wei_from_rpc_result(&s("0x+")), None);
    assert_eq!(eth_wei_from_rpc_result(&s("0x-1")), None);
    // 2^128 overflows
    assert_eq!(eth_wei_from_rpc_result(&s("0x100000000000000000000000000000000")), None);
    assert_eq!(
        eth_wei_from_rpc_result(&s("0xffffffffffffffffffffffffffffffff")),
        Some(u128::MAX)
    );
    assert_eq!(eth_gas_price_wei_from_rpc_result(&s("0x3b9aca00")), Some(1_000_000_000u128));
}

#[test]
fn decimal_strings_stay_within_u64() {
    assert_eq!(sui_gas_mist(&s("18446744073709551615")), Some(u64::MAX));
    assert_eq!(sui_gas_mist(&s("18446744073709551616")), None);
    assert_eq!(sui_gas_mist(&s("+7")), Some(7));
    assert_eq!(sui_gas_mist(&s("")), None);
    assert_eq!(sui_gas_mist(&s(" 7")), None);
}

#[test]
fn format_units_fixed_truncates_and_pads() {
    assert_eq!(format_units_fixed(1_500_000_000, 9, 4), "1.5000");
    assert_eq!(format_units_fixed(1_999_999_999, 9, 4), "1.9999");
    assert_eq!(format_units_fixed(1_000, 9, 9), "0.000001000");
    assert_eq!(format_units_fixed(123, 0, 2), "123.00");
    assert_eq!(format_units_fixed(123, 2, 0), "1");
    assert_eq!(format_units_fixed(0, 18, 4), "0.0000");
    assert_eq!(format_units_fixed(u128::MAX, 38, 38), "3.40282366920938463463374607431768211455");
}

#[test]
fn sui_balance_of_unparseable_amount_is_shown_raw() {
    let row = txio_cli::results::SuiCoinBalanceRow {
        total_balance: "lots".to_string(),
        coin_object_count: 1,
        coin_type: "0x2::sui::SUI".to_string(),
    };
    assert_eq!(format_sui_coin_balance_display(&row), "lots");
}

#[test]
fn sui_rows_default_missing_fields() {
    let rows = sui_coin_rows_from_rpc_result(&Json::Array(vec![obj(vec![])])).unwrap();
    assert_eq!(rows[0].total_balance, "0");
    assert_eq!(rows[0].coin_object_count, 0);
    assert_eq!(rows[0].coin_type, "Unknown");
    assert!(sui_coin_rows_from_rpc_result(&Json::Null).is_none());
}

#[test]
fn coin_type_labels() {
    assert_eq!(
        coin_type_label("0x2::sui::SUI"),
        CoinTypeLabel::Whole("0x2::sui::SUI".to_string())
    );
    assert_eq!(
        coin_type_label("0x0000000000000000000000000000000000abc::usdc::USDC"),
        CoinTypeLabel::ModuleAndName("usdc".to_string(), "USDC".to_string())
    );
    assert_eq!(
        coin_type_label("0x00000000000000000000000000000000000000000000"),
        CoinTypeLabel::Shortened("0x00000000...0000000000".to_string())
    );
}

#[test]
fn balance_reports_per_chain() {
    assert_eq!(
        balance_report(ChainKind::Ethereum, &s("0xde0b6b3a7640000")),
        BalanceReport::Ether("1.0000".to_string())
    );
    assert_eq!(
        balance_report(ChainKind::Ethereum, &s("nothex")),
        BalanceReport::WeiHex("nothex".to_string())
    );
    assert_eq!(
        balance_report(ChainKind::Solana, &obj(vec![("value", n(2_500_000_000))])),
        BalanceReport::Sol("2.5000".to_string())
    );
    assert_eq!(balance_report(ChainKind::Sui, &Json::Array(vec![])), BalanceReport::SuiNoCoins);
    assert_eq!(balance_report(ChainKind::Soroban, &s("x")), BalanceReport::Raw);
    let apt = Json::Array(vec![obj(vec![
        ("type", s("0x1::coin::CoinStore<0x1::aptos_coin::AptosCoin>")),
        ("data", obj(vec![("coin", obj(vec![("value", s("150000000"))]))])),
    ])]);
    assert_eq!(balance_report(ChainKind::Aptos, &apt), BalanceReport::Apt("1.5000".to_string()));
    match balance_report(
        ChainKind::Sui,
        &Json::Array(vec![obj(vec![
            ("coinType", s("0x2::sui::SUI")),
            ("coinObjectCount", n(3)),
            ("totalBalance", s("2000000000")),
        ])]),
    ) {
        BalanceReport::SuiCoins(lines) => {
            assert_eq!(lines.len(), 1);
            assert_eq!(lines[0].balance, "2.0000 SUI");
            assert_eq!(lines[0].objects, 3);
        }
        other => panic!("unexpected report {other:?}"),
    }
}

#[test]
fn gas_reports_per_chain() {
    assert_eq!(
        gas_report(ChainKind::Sui, &s("750")),
        GasReport::Sui { mist: 750, sui: "0.000000750".to_string() }
    );
    assert_eq!(
        gas_report(ChainKind::Sui, &s("junk")),
        GasReport::Sui { mist: 0, sui: "0.000000000".to_string() }
    );
    assert_eq!(
        gas_report(ChainKind::Ethereum, &s("0x3b9aca00")),
        GasReport::Ethereum { gwei: "1.0000".to_string(), wei: 1_000_000_000 }
    );
    assert_eq!(gas_report(ChainKind::Aptos, &s("1")), GasReport::Raw);
}

#[test]
fn unresolved_names_are_flagged() {
    assert!(is_unresolved_name("alice.sui"));
    assert!(is_unresolved_name("bob.eth"));
    assert!(!is_unresolved_name("0xabc"));
    assert!(!is_unresolved_name("sui"));
}
