use ark_onramp::ark_backend::ArkBackend;
use ark_onramp::ark_store::ArkStateStore;
use ark_onramp::network::{parse_network, Network};
use ark_onramp::payjoin_state::{OnRampQuoteRecord, OnRampStateStore};
use ark_onramp::settings::{truthy, BackendConfig, Config};
use ark_onramp::split::split_amounts;
use ark_onramp::startup::{
    ark_unreachable, jobs_from_env, list_items, ohttp_source, plan_wallet, plan_wallet_with,
    prune_quotes, OhttpSource,
};
use ark_onramp::table::Table;

fn env(pairs: &[(&str, &str)]) -> Table<String> {
    let mut table = Table::new();
    for (name, value) in pairs {
        table.insert(name.to_string(), value.to_string());
    }
    table
}

const PHRASE: &str = "abandon abandon abandon abandon abandon abandon abandon abandon abandon abandon abandon about";

#[test]
fn defaults_are_those_of_signet() {
    let config = Config::load(Config::default(), &env(&[]), None);
    assert_eq!(config.backend_type, "ark");
    assert_eq!(config.server_port, 50051);
    assert!(!config.tls_enable);
    assert_eq!(config.tls_cert_path, "certs/server.crt");
    assert_eq!(config.tls_key_path, "certs/server.key");
    assert!(config.keep_alive_interval.is_none());
    assert!(config.keep_alive_timeout.is_none());
    assert!(config.max_connection_age.is_none());
    let b = config.backend;
    assert_eq!(b.mnemonic, "");
    assert_eq!(b.server_address, "https://ark.signet.2nd.dev");
    assert_eq!(b.server_access_token, "");
    assert_eq!(b.esplora_address, "https://esplora.signet.2nd.dev");
    assert_eq!(b.network, "signet");
    assert_eq!(b.data_dir, ".data/bark");
    assert_eq!(b.bitcoind_address, "http://127.0.0.1:18443");
    assert_eq!((b.bitcoind_user.as_str(), b.bitcoind_pass.as_str()), ("ark", "ark"));
    assert_eq!(b.payjoin_directory_url, "https://payjo.in");
    assert_eq!(b.payjoin_ohttp_relay, "https://pj.bobspacebkk.com");
    assert_eq!(b.payjoin_ohttp_keys, "");
    assert_eq!(b.control_url, "http://127.0.0.1:9201");
    assert!(!b.payjoin_receiver_inputs);
    assert_eq!(b.payjoin_receiver_input_count, 2);
    assert_eq!(b.payjoin_onchain_deposit_fee_bps, 0);
}

#[test]
fn environment_wins() {
    let vars = env(&[
        ("MNEMONIC", "inline"), ("ARK_SERVER_ADDRESS", "s"), ("ARK_SERVER_ACCESS_TOKEN", "t"),
        ("ESPLORA_ADDRESS", "e"), ("NETWORK", "regtest"), ("DATA_DIR", "d"),
        ("SERVER_PORT", "65535"), ("TLS_ENABLE", "YES"), ("TLS_CERT_PATH", "c"),
        ("TLS_KEY_PATH", "k"), ("PAYJOIN_DIRECTORY_URL", "pd"), ("PAYJOIN_OHTTP_RELAY", "pr"),
        ("PAYJOIN_OHTTP_KEYS", "pk"), ("CONTROL_URL", "cu"), ("PAYJOIN_RECEIVER_INPUTS", "1"),
        ("PAYJOIN_RECEIVER_INPUT_COUNT", "7"), ("MINT_ONCHAIN_DEPOSIT_FEE_BPS", "50"),
    ]);
    let config = Config::from_env(Config::default(), &vars, None);
    assert_eq!(config.server_port, 65535);
    assert!(config.tls_enable);
    assert_eq!((config.tls_cert_path.as_str(), config.tls_key_path.as_str()), ("c", "k"));
    let b = config.backend;
    assert_eq!(b.mnemonic, "inline");
    assert_eq!(b.server_address, "s");
    assert_eq!(b.server_access_token, "t");
    assert_eq!(b.esplora_address, "e");
    assert_eq!(b.network, "regtest");
    assert_eq!(b.data_dir, "d");
    assert_eq!(b.payjoin_directory_url, "pd");
    assert_eq!(b.payjoin_ohttp_relay, "pr");
    assert_eq!(b.payjoin_ohttp_keys, "pk");
    assert_eq!(b.control_url, "cu");
    assert!(b.payjoin_receiver_inputs);
    assert_eq!(b.payjoin_receiver_input_count, 7);
    assert_eq!(b.payjoin_onchain_deposit_fee_bps, 50);
}

#[test]
fn unreadable_numbers_are_passed_over() {
    let vars = env(&[
        ("SERVER_PORT", "65536"), ("PAYJOIN_RECEIVER_INPUT_COUNT", "many"),
        ("MINT_ONCHAIN_DEPOSIT_FEE_BPS", "-1"), ("TLS_ENABLE", "True"),
    ]);
    let config = Config::load(Config::default(), &vars, None);
    assert_eq!(config.server_port, 50051);
    assert_eq!(config.backend.payjoin_receiver_input_count, 2);
    assert_eq!(config.backend.payjoin_onchain_deposit_fee_bps, 0);
    assert!(!config.tls_enable);
    for v in ["1", "true", "TRUE", "yes", "YES"] {
        assert!(truthy(v));
    }
    assert!(!truthy("on"));
}

#[test]
fn mnemonic_file_wins_over_the_inline_mnemonic() {
    let vars = env(&[("MNEMONIC_FILE", "/run/seed"), ("MNEMONIC", "inline")]);
    let config = Config::load(Config::default(), &vars, Some(" from file\n".to_string()));
    assert_eq!(config.backend.mnemonic, "from file");
}

#[test]
fn networks_are_named_in_any_case() {
    assert_eq!(parse_network("MainNet"), Network::Bitcoin);
    assert_eq!(parse_network("testnet"), Network::Testnet);
    assert_eq!(parse_network("SIGNET"), Network::Signet);
    assert_eq!(parse_network("regtest"), Network::Regtest);
    assert_eq!(parse_network("bitcoin"), Network::Signet);
    assert_eq!(parse_network(""), Network::Signet);
}

#[test]
fn wallet_is_opened_with_one_chain_source() {
    let mut config = BackendConfig { mnemonic: PHRASE.to_string(), ..BackendConfig::default() };
    config.server_access_token = " token ".to_string();
    let plan = plan_wallet(&config).unwrap_or_else(|e| panic!("{}", e));
    assert_eq!(
        hex::encode(&plan.seed),
        "5eb00bbddcf069084889a8ab9155568165f5c453ccb85e70811aaed6f6da5fc19a5ac40b389cd370d086206dec8aa6c43daea6690f20ad3d8d48b2d2ce9e38e4"
    );
    assert_eq!(plan.network, Network::Signet);
    assert_eq!(plan.server_access_token, Some("token".to_string()));
    assert_eq!(plan.esplora_address, Some("https://esplora.signet.2nd.dev".to_string()));
    assert!(plan.bitcoind_address.is_none());
    assert!(plan.bitcoind_user.is_none() && plan.bitcoind_pass.is_none());
    config.esplora_address = "  ".to_string();
    config.server_access_token = " ".to_string();
    let plan = plan_wallet_with(&config, Ok(vec![1])).unwrap_or_else(|e| panic!("{}", e));
    assert_eq!(plan.seed, vec![1]);
    assert!(plan.esplora_address.is_none());
    assert!(plan.server_access_token.is_none());
    assert_eq!(plan.bitcoind_address, Some("http://127.0.0.1:18443".to_string()));
    assert_eq!(plan.bitcoind_user, Some("ark".to_string()));
}

#[test]
fn mnemonic_must_be_good() {
    let config = BackendConfig { mnemonic: "abandon".to_string(), ..BackendConfig::default() };
    let parse = "abandon".parse::<bip39::Mnemonic>().unwrap_err();
    assert_eq!(plan_wallet(&config).err(), Some(format!("Invalid mnemonic: {}", parse)));
}

#[test]
fn listed_quotes_are_pruned() {
    assert_eq!(list_items(" a, ,b,,  c "), vec!["a", "b", "c"]);
    assert_eq!(list_items("").len(), 0);
    let mut store = OnRampStateStore::open(Vec::new());
    for id in ["a", "b", "d"] {
        store.put_quote(&OnRampQuoteRecord {
            quote_id: id.to_string(),
            keypair_index: 1,
            expiry_height: 1,
            board_script_hex: String::new(),
            board_address: String::new(),
            bip21_uri: String::new(),
        });
    }
    let log = store.session_persister("a");
    log.save_event(&mut store, "{}");
    prune_quotes(&mut store, " a, ,b,,  c ");
    let left: Vec<String> = store.all_quotes().into_iter().map(|q| q.quote_id).collect();
    assert_eq!(left, vec!["d"]);
    assert!(store.session_exists("a"));
}

#[test]
fn ohttp_keys_are_read() {
    assert!(matches!(ohttp_source("  "), OhttpSource::Fetch));
    let keys = "01001604\
                79be667ef9dcbbac55a06295ce870b07029bfcdb2dce28d959f2815b16f81798\
                483ada7726a3c4655da4fbfc0e1108a8fd17b448a68554199c47d08ffb10d4b8\
                000400010003";
    match ohttp_source(&format!(" {} ", keys)) {
        OhttpSource::Configured { keys: bytes } => assert_eq!(hex::encode(bytes), keys),
        OhttpSource::Invalid { error } => panic!("{}", error),
        OhttpSource::Fetch => panic!("the keys are configured"),
    }
    // The same keys in their short form, in bech32 of either case.
    let short = payjoin::OhttpKeys::decode(&hex::decode(keys).unwrap()).unwrap().to_string();
    assert!(short.starts_with("OH1"));
    for text in [short.clone(), short.to_lowercase(), format!(" {} ", short)] {
        match ohttp_source(&text) {
            OhttpSource::Configured { keys: bytes } => assert_eq!(hex::encode(bytes), keys),
            OhttpSource::Invalid { error } => panic!("{}", error),
            OhttpSource::Fetch => panic!("the keys are configured"),
        }
    }
    let too_short = payjoin::OhttpKeys::try_from(&[0u8; 5][..]).unwrap_err();
    assert!(matches!(
        ohttp_source("OH1QQQQQQQQ"),
        OhttpSource::Invalid { error } if error == too_short.to_string()
    ));
    // Another kind of bech32 text holds no keys.
    let other = short.replace("OH1", "RK1");
    let bad_other = hex::decode(&other).unwrap_err();
    assert!(matches!(
        ohttp_source(&other),
        OhttpSource::Invalid { error } if error == bad_other.to_string()
    ));
    let bad_hex = hex::decode("not keys").unwrap_err();
    assert!(matches!(
        ohttp_source("not keys"),
        OhttpSource::Invalid { error } if error == bad_hex.to_string()
    ));
    let bad_keys = payjoin::OhttpKeys::decode(&[1, 2]).unwrap_err();
    assert!(matches!(
        ohttp_source("0102"),
        OhttpSource::Invalid { error } if error == bad_keys.to_string()
    ));
}

#[test]
fn server_is_waited_for_two_minutes() {
    assert_eq!(ark_unreachable(0, "refused"), Ok(5));
    assert_eq!(ark_unreachable(119, "refused"), Ok(5));
    assert_eq!(
        ark_unreachable(120, "refused"),
        Err("Ark server unreachable: could not fetch min_board_amount after 120s (last error: refused); refusing to start rather than defaulting the board floor to 1 sat (would strand sub-minimum deposits)".to_string())
    );
}

#[test]
fn jobs_are_asked_for() {
    let none = jobs_from_env(&env(&[("POR_ENABLE", "yes"), ("RECYCLER_TEST_OFFBOARD_SAT", "x")]));
    assert_eq!(none.test_offboard_sat, None);
    assert_eq!(none.split_range, None);
    assert!(!none.attest_once && !none.publish);
    assert_eq!(none.attest_every_secs, None);
    let jobs = jobs_from_env(&env(&[
        ("RECYCLER_TEST_OFFBOARD_SAT", "1000"), ("RECYCLER_SPLIT_NOW", "true"),
        ("MINT_LEND_MAX_SAT", "9000"), ("POR_ATTEST_ONCE", "1"), ("POR_ENABLE", "1"),
        ("POR_INTERVAL_SECS", "0"), ("POR_PUBLISH", "true"),
    ]));
    assert_eq!(jobs.test_offboard_sat, Some(1000));
    assert_eq!(jobs.split_range, Some((5000, 9000)));
    assert!(jobs.attest_once && jobs.publish);
    assert_eq!(jobs.attest_every_secs, Some(6000));
    let timed = jobs_from_env(&env(&[("POR_ENABLE", "true"), ("POR_INTERVAL_SECS", "60")]));
    assert_eq!(timed.attest_every_secs, Some(60));
}

#[test]
fn backend_is_set_up_from_its_configuration() {
    let config = BackendConfig {
        network: "mainnet".to_string(),
        payjoin_receiver_inputs: true,
        payjoin_receiver_input_count: 3,
        payjoin_onchain_deposit_fee_bps: 25,
        ..BackendConfig::default()
    };
    let backend = ArkBackend::new(
        &config,
        ArkStateStore::open(Vec::new()),
        OnRampStateStore::open(Vec::new()),
        Some(vec![9]),
        42,
    );
    assert_eq!(backend.network, Network::Bitcoin);
    assert_eq!(backend.min_board_amount_sat, 42);
    assert!(backend.payjoin.receiver_inputs_enabled);
    assert_eq!(backend.payjoin.receiver_input_count, 3);
    assert_eq!(backend.payjoin.onchain_deposit_fee_bps, 25);
    assert_eq!(backend.payjoin.config.ohttp_keys, Some(vec![9]));
    assert_eq!(backend.payjoin.telemetry.event_url(), "http://127.0.0.1:9201/onramp/event");
}

#[test]
fn reserve_is_split_within_its_limits() {
    let backend = ArkBackend::new(
        &BackendConfig::default(),
        ArkStateStore::open(Vec::new()),
        OnRampStateStore::open(Vec::new()),
        None,
        1,
    );
    let zeros: Vec<u64> = vec![0; 60];
    assert_eq!(
        backend.split_reserve(8_000, 5_000, 20_000, &zeros),
        Err("reserve too small to split (8000 sat)".to_string())
    );
    // Within [5000, 20000] there are 15001 amounts; 12000 are left for the third coin.
    let mut draws = zeros.clone();
    draws[0] = 15_001;
    draws[1] = 15_000;
    draws[2] = 7_000;
    assert_eq!(
        backend.split_reserve(40_000, 5_000, 20_000, &draws),
        Ok(vec![5_000, 20_000, 12_000])
    );
    assert_eq!(
        split_amounts(10_000, 5_000, 4_000, &zeros),
        Err("no split destinations generated".to_string())
    );
    assert_eq!(split_amounts(1_000_000, 1, 1, &zeros), Ok(vec![1; 60]));
}
