use txio_cli::network::{resolve_network, Network};
use txio_cli::config::Config;
use txio_cli::json::Json;
use txio_cli::settings::{
    get_config, get_current_chain, get_current_network, get_token, list_config,
    load_environment, read_network_file, remove_config_write, save_config_write, EnvSource, remove_config, save_config, save_current_chain,
    save_current_network, save_network, save_token, should_warn_unloaded_cwd_env,
    write_network_file, ConfigFile, SettingsMap,
};

#[test]
fn network_file_round_trips() {
    let write = write_network_file("testnet");
    assert_eq!(read_network_file(Some(write.contents)).as_deref(), Some("testnet"));
}

#[test]
fn network_file_is_trimmed_on_read() {
    let write = write_network_file("  devnet \n\n");
    assert_eq!(read_network_file(Some(write.contents)).as_deref(), Some("devnet"));
}

#[test]
fn missing_or_corrupt_network_file_reads_as_none() {
    assert_eq!(read_network_file(None), None);
}

#[test]
fn save_and_get_current_network_round_trip() {
    assert_eq!(get_current_network(None), None);

    let w = save_current_network("testnet");
    assert_eq!(w.file, ConfigFile::CurrentNetwork);
    assert_eq!(get_current_network(Some(w.contents)), Some("testnet".to_string()));

    let w = save_network("devnet");
    assert_eq!(w.file, ConfigFile::CurrentNetwork);
    assert_eq!(get_current_network(Some(w.contents)), Some("devnet".to_string()));
}

#[test]
fn warns_only_when_cwd_env_present_and_no_opt_in() {
    assert!(should_warn_unloaded_cwd_env(false, true));
    assert!(!should_warn_unloaded_cwd_env(true, true));
    assert!(!should_warn_unloaded_cwd_env(false, false));
}

#[test]
fn environment_plan_follows_precedence() {
    let plan = load_environment(true, true, true);
    assert_eq!(plan.sources, vec![EnvSource::Explicit, EnvSource::Trusted]);
    assert!(!plan.warn_unloaded_cwd_env);
    let plan = load_environment(false, true, false);
    assert_eq!(plan.sources, vec![EnvSource::Trusted]);
    let plan = load_environment(false, false, true);
    assert!(plan.sources.is_empty());
    assert!(plan.warn_unloaded_cwd_env);
}

#[test]
fn settings_file_is_written_owner_only_on_save() {
    let w = save_config_write("{\"new_key\": \"new_val\"}");
    assert_eq!(w.file, ConfigFile::Settings);
    assert!(w.owner_only);
    assert!(w.contents.contains("new_val"));
    let w = remove_config_write("{}");
    assert_eq!(w.file, ConfigFile::Settings);
    assert!(!w.owner_only);
}

#[test]
fn token_and_chain_files() {
    let w = save_token("jwt");
    assert_eq!(w.file, ConfigFile::Token);
    assert!(w.owner_only);
    assert_eq!(w.file.file_name(), "token");
    assert_eq!(get_token(Some(" jwt\n".to_string())), Some("jwt".to_string()));
    let w = save_current_chain("solana");
    assert!(!w.owner_only);
    assert_eq!(w.file.file_name(), "current_chain");
    assert_eq!(get_current_chain(Some(w.contents)), Some("solana".to_string()));
    assert_eq!(ConfigFile::Settings.file_name(), "config.json");
    assert_eq!(txio_cli::settings::config_dir_name(), ".txio");
}

#[test]
fn settings_read_back_what_was_written() {
    let m = save_config(None, "test_key", "test_val");
    let m = save_config(Some(m), "other", "x");
    let m = save_config(Some(m), "test_key", "new_val");
    let existing = Some(m);
    assert_eq!(get_config(&existing, "test_key"), Some("new_val".to_string()));
    assert_eq!(get_config(&existing, "other"), Some("x".to_string()));
    assert_eq!(get_config(&existing, "missing"), None);
    assert_eq!(
        list_config(&existing),
        vec![
            ("test_key".to_string(), "new_val".to_string()),
            ("other".to_string(), "x".to_string())
        ]
    );
    let after = remove_config(existing, "test_key");
    assert_eq!(get_config(&after, "test_key"), None);
    assert_eq!(get_config(&after, "other"), Some("x".to_string()));
    assert!(remove_config(None, "k").is_none());
    assert_eq!(get_config(&None, "k"), None);
    assert!(list_config(&None).is_empty());
}

#[test]
fn non_string_settings_are_not_listed() {
    let mut m = SettingsMap::new();
    m.insert_json("n", Json::Bool(true));
    m.insert("s", "v");
    let existing = Some(m);
    assert_eq!(get_config(&existing, "n"), None);
    assert_eq!(list_config(&existing), vec![("s".to_string(), "v".to_string())]);
}

#[test]
fn config_loads_empty_defaults() {
    let c = Config::load();
    assert!(c.default_chain.is_empty());
    assert!(c.rpc_endpoints.is_empty());
    assert!(c.profiles.is_empty());
}

#[test]
fn resolves_network_with_precedence_end_to_end() {
    // 1. nothing persisted -> Mainnet
    assert_eq!(resolve_network(None, get_current_network(None)), Network::Mainnet);

    // 2. a persisted network is picked up
    let w = save_current_network("testnet");
    let persisted = Some(w.contents);
    assert_eq!(
        resolve_network(None, get_current_network(persisted.clone())),
        Network::Testnet
    );

    // 3. an explicit flag overrides it
    assert_eq!(
        resolve_network(Some(Network::Devnet), get_current_network(persisted)),
        Network::Devnet
    );
}
