//! Configuration: defaults, and the environment variables that go before them.

use crate::table::Table;
use crate::text::{opt_text, parse_number, parsed_number, str_eq, trim, trimmed};
use vstd::prelude::*;

verus! {

/// Configuration of the Ark backend.
#[derive(Debug)]
pub struct BackendConfig {
    /// BIP39 mnemonic of the wallet.
    pub mnemonic: String,
    /// Address of the Ark server.
    pub server_address: String,
    /// Access token of the Ark server, or nothing where it asks for none.
    pub server_access_token: String,
    /// Esplora API, or nothing where bitcoind is the chain source.
    pub esplora_address: String,
    /// Name of the Bitcoin network.
    pub network: String,
    /// Directory of the databases.
    pub data_dir: String,
    /// RPC address of bitcoind.
    pub bitcoind_address: String,
    /// RPC user of bitcoind.
    pub bitcoind_user: String,
    /// RPC password of bitcoind.
    pub bitcoind_pass: String,
    /// The payjoin directory.
    pub payjoin_directory_url: String,
    /// The relay that payjoin requests go through.
    pub payjoin_ohttp_relay: String,
    /// OHTTP keys of the directory, in hex or as a bech32 text that begins with `OH1`, or nothing
    /// where they are fetched.
    pub payjoin_ohttp_keys: String,
    /// Where telemetry goes.
    pub control_url: String,
    /// Whether the mint adds coins of its own to a board.
    pub payjoin_receiver_inputs: bool,
    /// How many coins the mint adds at most.
    pub payjoin_receiver_input_count: u32,
    /// The mint's fee on a deposit, in basis points.
    pub payjoin_onchain_deposit_fee_bps: u64,
}

/// What a [`BackendConfig`] says.
pub struct BackendSettings {
    pub mnemonic: Seq<char>,
    pub server_address: Seq<char>,
    pub server_access_token: Seq<char>,
    pub esplora_address: Seq<char>,
    pub network: Seq<char>,
    pub data_dir: Seq<char>,
    pub bitcoind_address: Seq<char>,
    pub bitcoind_user: Seq<char>,
    pub bitcoind_pass: Seq<char>,
    pub payjoin_directory_url: Seq<char>,
    pub payjoin_ohttp_relay: Seq<char>,
    pub payjoin_ohttp_keys: Seq<char>,
    pub control_url: Seq<char>,
    pub payjoin_receiver_inputs: bool,
    pub payjoin_receiver_input_count: u32,
    pub payjoin_onchain_deposit_fee_bps: u64,
}

impl View for BackendConfig {
    type V = BackendSettings;

    open spec fn view(&self) -> BackendSettings {
        BackendSettings {
            mnemonic: self.mnemonic@,
            server_address: self.server_address@,
            server_access_token: self.server_access_token@,
            esplora_address: self.esplora_address@,
            network: self.network@,
            data_dir: self.data_dir@,
            bitcoind_address: self.bitcoind_address@,
            bitcoind_user: self.bitcoind_user@,
            bitcoind_pass: self.bitcoind_pass@,
            payjoin_directory_url: self.payjoin_directory_url@,
            payjoin_ohttp_relay: self.payjoin_ohttp_relay@,
            payjoin_ohttp_keys: self.payjoin_ohttp_keys@,
            control_url: self.control_url@,
            payjoin_receiver_inputs: self.payjoin_receiver_inputs,
            payjoin_receiver_input_count: self.payjoin_receiver_input_count,
            payjoin_onchain_deposit_fee_bps: self.payjoin_onchain_deposit_fee_bps,
        }
    }
}

/// How many coins the mint adds at most, by default.
pub fn default_payjoin_receiver_input_count() -> (n: u32)
    ensures
        n == 2,
{
    2
}

/// By default: the payjoin directory.
pub fn default_payjoin_directory_url() -> (out: String)
    ensures
        out@ == "https://payjo.in"@,
{
    "https://payjo.in".to_owned()
}

/// By default: the relay that payjoin requests go through.
pub fn default_payjoin_ohttp_relay() -> (out: String)
    ensures
        out@ == "https://pj.bobspacebkk.com"@,
{
    "https://pj.bobspacebkk.com".to_owned()
}

/// By default: where telemetry goes.
pub fn default_control_url() -> (out: String)
    ensures
        out@ == "http://127.0.0.1:9201"@,
{
    "http://127.0.0.1:9201".to_owned()
}

/// By default: address of the Ark server.
pub fn default_server_address() -> (out: String)
    ensures
        out@ == "https://ark.signet.2nd.dev"@,
{
    "https://ark.signet.2nd.dev".to_owned()
}

/// By default: Esplora API.
pub fn default_esplora_address() -> (out: String)
    ensures
        out@ == "https://esplora.signet.2nd.dev"@,
{
    "https://esplora.signet.2nd.dev".to_owned()
}

/// By default: name of the Bitcoin network.
pub fn default_network() -> (out: String)
    ensures
        out@ == "signet"@,
{
    "signet".to_owned()
}

/// By default: directory of the databases.
pub fn default_data_dir() -> (out: String)
    ensures
        out@ == ".data/bark"@,
{
    ".data/bark".to_owned()
}

/// By default: RPC address of bitcoind.
pub fn default_bitcoind_address() -> (out: String)
    ensures
        out@ == "http://127.0.0.1:18443"@,
{
    "http://127.0.0.1:18443".to_owned()
}

/// By default: RPC user of bitcoind.
pub fn default_bitcoind_user() -> (out: String)
    ensures
        out@ == "ark"@,
{
    "ark".to_owned()
}

/// By default: RPC password of bitcoind.
pub fn default_bitcoind_pass() -> (out: String)
    ensures
        out@ == "ark"@,
{
    "ark".to_owned()
}

impl BackendSettings {
    /// The defaults.
    pub open spec fn defaults() -> BackendSettings {
        BackendSettings {
            mnemonic: Seq::empty(),
            server_address: "https://ark.signet.2nd.dev"@,
            server_access_token: Seq::empty(),
            esplora_address: "https://esplora.signet.2nd.dev"@,
            network: "signet"@,
            data_dir: ".data/bark"@,
            bitcoind_address: "http://127.0.0.1:18443"@,
            bitcoind_user: "ark"@,
            bitcoind_pass: "ark"@,
            payjoin_directory_url: "https://payjo.in"@,
            payjoin_ohttp_relay: "https://pj.bobspacebkk.com"@,
            payjoin_ohttp_keys: Seq::empty(),
            control_url: "http://127.0.0.1:9201"@,
            payjoin_receiver_inputs: false,
            payjoin_receiver_input_count: 2,
            payjoin_onchain_deposit_fee_bps: 0,
        }
    }
}

impl Default for BackendConfig {
    fn default() -> (out: Self)
        ensures
            out@ == BackendSettings::defaults(),
    {
        BackendConfig {
            mnemonic: String::new(),
            server_address: default_server_address(),
            server_access_token: String::new(),
            esplora_address: default_esplora_address(),
            network: default_network(),
            data_dir: default_data_dir(),
            bitcoind_address: default_bitcoind_address(),
            bitcoind_user: default_bitcoind_user(),
            bitcoind_pass: default_bitcoind_pass(),
            payjoin_directory_url: default_payjoin_directory_url(),
            payjoin_ohttp_relay: default_payjoin_ohttp_relay(),
            payjoin_ohttp_keys: String::new(),
            control_url: default_control_url(),
            payjoin_receiver_inputs: false,
            payjoin_receiver_input_count: default_payjoin_receiver_input_count(),
            payjoin_onchain_deposit_fee_bps: 0,
        }
    }
}

/// The whole configuration.
#[derive(Debug)]
pub struct Config {
    /// Kind of backend.
    pub backend_type: String,
    /// Configuration of the backend.
    pub backend: BackendConfig,
    /// Port of the gRPC server.
    pub server_port: u16,
    /// Whether the gRPC server uses TLS.
    pub tls_enable: bool,
    /// Certificate of the gRPC server.
    pub tls_cert_path: String,
    /// Key of the gRPC server.
    pub tls_key_path: String,
    /// HTTP/2 keep-alive interval.
    pub keep_alive_interval: Option<String>,
    /// HTTP/2 keep-alive timeout.
    pub keep_alive_timeout: Option<String>,
    /// How long a connection may live.
    pub max_connection_age: Option<String>,
}

/// What a [`Config`] says.
pub struct Settings {
    pub backend_type: Seq<char>,
    pub backend: BackendSettings,
    pub server_port: u16,
    pub tls_enable: bool,
    pub tls_cert_path: Seq<char>,
    pub tls_key_path: Seq<char>,
    pub keep_alive_interval: Option<Seq<char>>,
    pub keep_alive_timeout: Option<Seq<char>>,
    pub max_connection_age: Option<Seq<char>>,
}

impl View for Config {
    type V = Settings;

    open spec fn view(&self) -> Settings {
        Settings {
            backend_type: self.backend_type@,
            backend: self.backend@,
            server_port: self.server_port,
            tls_enable: self.tls_enable,
            tls_cert_path: self.tls_cert_path@,
            tls_key_path: self.tls_key_path@,
            keep_alive_interval: opt_text(self.keep_alive_interval),
            keep_alive_timeout: opt_text(self.keep_alive_timeout),
            max_connection_age: opt_text(self.max_connection_age),
        }
    }
}

impl Settings {
    /// The defaults.
    pub open spec fn defaults() -> Settings {
        Settings {
            backend_type: "ark"@,
            backend: BackendSettings::defaults(),
            server_port: 50051,
            tls_enable: false,
            tls_cert_path: "certs/server.crt"@,
            tls_key_path: "certs/server.key"@,
            keep_alive_interval: None,
            keep_alive_timeout: None,
            max_connection_age: None,
        }
    }
}

impl Default for Config {
    fn default() -> (out: Self)
        ensures
            out@ == Settings::defaults(),
    {
        Config {
            backend_type: "ark".to_owned(),
            backend: BackendConfig::default(),
            server_port: 50051,
            tls_enable: false,
            tls_cert_path: "certs/server.crt".to_owned(),
            tls_key_path: "certs/server.key".to_owned(),
            keep_alive_interval: None,
            keep_alive_timeout: None,
            max_connection_age: None,
        }
    }
}

/// Whether a value of an environment variable switches something on.
pub open spec fn is_truthy(v: Seq<char>) -> bool {
    v == "1"@ || v == "true"@ || v == "TRUE"@ || v == "yes"@ || v == "YES"@
}

/// Tests whether a value of an environment variable switches something on.
pub fn truthy(v: &str) -> (r: bool)
    ensures
        r == is_truthy(v@),
{
    str_eq(v, "1") || str_eq(v, "true") || str_eq(v, "TRUE") || str_eq(v, "yes") || str_eq(v, "YES")
}

/// A text, unless the environment has another.
pub open spec fn text_over(
    env: Map<Seq<char>, Seq<char>>,
    name: Seq<char>,
    base: Seq<char>,
) -> Seq<char> {
    if env.dom().contains(name) {
        env[name]
    } else {
        base
    }
}

fn over_text(env: &Table<String>, name: &str, base: String) -> (out: String)
    ensures
        out@ == text_over(env@, name@, base@),
{
    match env.get(name) {
        Some(v) => v.clone(),
        None => base,
    }
}

/// A switch, unless the environment sets it.
pub open spec fn flag_over(env: Map<Seq<char>, Seq<char>>, name: Seq<char>, base: bool) -> bool {
    if env.dom().contains(name) {
        is_truthy(env[name])
    } else {
        base
    }
}

fn over_flag(env: &Table<String>, name: &str, base: bool) -> (out: bool)
    ensures
        out == flag_over(env@, name@, base),
{
    match env.get(name) {
        Some(v) => truthy(v.as_str()),
        None => base,
    }
}

/// A number of at most `max`, unless the environment has another that can be read.
pub open spec fn number_over(
    env: Map<Seq<char>, Seq<char>>,
    name: Seq<char>,
    base: u64,
    max: u64,
) -> u64 {
    if env.dom().contains(name) {
        match parsed_number(env[name], max) {
            Some(n) => n,
            None => base,
        }
    } else {
        base
    }
}

/// Reads a number of at most `max` from the environment, or else keeps the one there is.
pub fn over_number(env: &Table<String>, name: &str, base: u64, max: u64) -> (out: u64)
    ensures
        out == number_over(env@, name@, base, max),
{
    match env.get(name) {
        Some(v) => match parse_number(v.as_str(), max) {
            Some(n) => n,
            None => base,
        },
        None => base,
    }
}

proof fn lemma_number_fits(env: Map<Seq<char>, Seq<char>>, name: Seq<char>, base: u64, max: u64)
    requires
        base <= max,
    ensures
        number_over(env, name, base, max) <= max,
{
}

/// The mnemonic: the trimmed contents of the file that `MNEMONIC_FILE` names, or else `MNEMONIC`,
/// or else what was configured.
pub open spec fn mnemonic_over(
    env: Map<Seq<char>, Seq<char>>,
    file: Option<Seq<char>>,
    base: Seq<char>,
) -> Seq<char> {
    if env.dom().contains("MNEMONIC_FILE"@) {
        trimmed(file->0)
    } else {
        text_over(env, "MNEMONIC"@, base)
    }
}

/// A configuration with the environment over it.
pub open spec fn loaded(
    base: Settings,
    env: Map<Seq<char>, Seq<char>>,
    mnemonic_file: Option<Seq<char>>,
) -> Settings {
    Settings {
        backend: BackendSettings {
            mnemonic: mnemonic_over(env, mnemonic_file, base.backend.mnemonic),
            server_address: text_over(
                env,
                "ARK_SERVER_ADDRESS"@,
                base.backend.server_address,
            ),
            server_access_token: text_over(
                env,
                "ARK_SERVER_ACCESS_TOKEN"@,
                base.backend.server_access_token,
            ),
            esplora_address: text_over(
                env,
                "ESPLORA_ADDRESS"@,
                base.backend.esplora_address,
            ),
            network: text_over(
                env,
                "NETWORK"@,
                base.backend.network,
            ),
            data_dir: text_over(
                env,
                "DATA_DIR"@,
                base.backend.data_dir,
            ),
            payjoin_directory_url: text_over(
                env,
                "PAYJOIN_DIRECTORY_URL"@,
                base.backend.payjoin_directory_url,
            ),
            payjoin_ohttp_relay: text_over(
                env,
                "PAYJOIN_OHTTP_RELAY"@,
                base.backend.payjoin_ohttp_relay,
            ),
            payjoin_ohttp_keys: text_over(
                env,
                "PAYJOIN_OHTTP_KEYS"@,
                base.backend.payjoin_ohttp_keys,
            ),
            control_url: text_over(
                env,
                "CONTROL_URL"@,
                base.backend.control_url,
            ),
            payjoin_receiver_inputs: flag_over(
                env,
                "PAYJOIN_RECEIVER_INPUTS"@,
                base.backend.payjoin_receiver_inputs,
            ),
            payjoin_receiver_input_count: number_over(
                env,
                "PAYJOIN_RECEIVER_INPUT_COUNT"@,
                base.backend.payjoin_receiver_input_count as u64,
                u32::MAX as u64,
            ) as u32,
            payjoin_onchain_deposit_fee_bps: number_over(
                env,
                "MINT_ONCHAIN_DEPOSIT_FEE_BPS"@,
                base.backend.payjoin_onchain_deposit_fee_bps,
                u64::MAX,
            ),
            ..base.backend
        },
        server_port: number_over(
            env,
            "SERVER_PORT"@,
            base.server_port as u64,
            u16::MAX as u64,
        ) as u16,
        tls_enable: flag_over(env, "TLS_ENABLE"@, base.tls_enable),
        tls_cert_path: text_over(env, "TLS_CERT_PATH"@, base.tls_cert_path),
        tls_key_path: text_over(env, "TLS_KEY_PATH"@, base.tls_key_path),
        ..base
    }
}

impl Config {
    /// The configuration that results from `base`, which is the file's or else the defaults, and
    /// the environment over it. `mnemonic_file` holds the contents of the file that
    /// `MNEMONIC_FILE` names.
    pub fn load(base: Config, env: &Table<String>, mnemonic_file: Option<String>) -> (config: Config)
        requires
            env@.dom().contains("MNEMONIC_FILE"@) ==> mnemonic_file is Some,
        ensures
            config@ == loaded(base@, env@, opt_text(mnemonic_file)),
    {
        let b = base.backend;
        let mnemonic = if env.contains("MNEMONIC_FILE") {
            match &mnemonic_file {
                Some(contents) => trim(contents.as_str()),
                None => b.mnemonic,
            }
        } else {
            over_text(env, "MNEMONIC", b.mnemonic)
        };
        let input_count: u64 = over_number(
            env,
            "PAYJOIN_RECEIVER_INPUT_COUNT",
            b.payjoin_receiver_input_count as u64,
            u32::MAX as u64,
        );
        let server_port: u64 = over_number(
            env,
            "SERVER_PORT",
            base.server_port as u64,
            u16::MAX as u64,
        );
        proof {
            lemma_number_fits(
                env@,
                "PAYJOIN_RECEIVER_INPUT_COUNT"@,
                b.payjoin_receiver_input_count as u64,
                u32::MAX as u64,
            );
            lemma_number_fits(env@, "SERVER_PORT"@, base.server_port as u64, u16::MAX as u64);
        }
        let backend = BackendConfig {
            mnemonic,
            server_address: over_text(env, "ARK_SERVER_ADDRESS", b.server_address),
            server_access_token: over_text(env, "ARK_SERVER_ACCESS_TOKEN", b.server_access_token),
            esplora_address: over_text(env, "ESPLORA_ADDRESS", b.esplora_address),
            network: over_text(env, "NETWORK", b.network),
            data_dir: over_text(env, "DATA_DIR", b.data_dir),
            payjoin_directory_url: over_text(env, "PAYJOIN_DIRECTORY_URL", b.payjoin_directory_url),
            payjoin_ohttp_relay: over_text(env, "PAYJOIN_OHTTP_RELAY", b.payjoin_ohttp_relay),
            payjoin_ohttp_keys: over_text(env, "PAYJOIN_OHTTP_KEYS", b.payjoin_ohttp_keys),
            control_url: over_text(env, "CONTROL_URL", b.control_url),
            payjoin_receiver_inputs: over_flag(
                env,
                "PAYJOIN_RECEIVER_INPUTS",
                b.payjoin_receiver_inputs,
            ),
            payjoin_receiver_input_count: input_count as u32,
            payjoin_onchain_deposit_fee_bps: over_number(
                env,
                "MINT_ONCHAIN_DEPOSIT_FEE_BPS",
                b.payjoin_onchain_deposit_fee_bps,
                u64::MAX,
            ),
            bitcoind_address: b.bitcoind_address,
            bitcoind_user: b.bitcoind_user,
            bitcoind_pass: b.bitcoind_pass,
        };
        Config {
            backend_type: base.backend_type,
            backend,
            server_port: server_port as u16,
            tls_enable: over_flag(env, "TLS_ENABLE", base.tls_enable),
            tls_cert_path: over_text(env, "TLS_CERT_PATH", base.tls_cert_path),
            tls_key_path: over_text(env, "TLS_KEY_PATH", base.tls_key_path),
            keep_alive_interval: base.keep_alive_interval,
            keep_alive_timeout: base.keep_alive_timeout,
            max_connection_age: base.max_connection_age,
        }
    }

    /// The configuration that results from `base` and the environment.
    pub fn from_env(base: Config, env: &Table<String>, mnemonic_file: Option<String>) -> (config:
        Config)
        requires
            env@.dom().contains("MNEMONIC_FILE"@) ==> mnemonic_file is Some,
        ensures
            config@ == loaded(base@, env@, opt_text(mnemonic_file)),
    {
        Config::load(base, env, mnemonic_file)
    }
}

/// A text that the environment gives goes before the one that was configured, and without one the
/// configured one stays.
pub proof fn law_texts_of_the_environment_go_first(
    base: Settings,
    env: Map<Seq<char>, Seq<char>>,
    file: Option<Seq<char>>,
    v: Seq<char>,
)
    ensures
        loaded(base, env.insert("ARK_SERVER_ADDRESS"@, v), file).backend.server_address == v,
        loaded(base, env.remove("ARK_SERVER_ADDRESS"@), file).backend.server_address == base.backend.server_address,
        loaded(base, env.insert("ARK_SERVER_ACCESS_TOKEN"@, v), file).backend.server_access_token == v,
        loaded(base, env.remove("ARK_SERVER_ACCESS_TOKEN"@), file).backend.server_access_token == base.backend.server_access_token,
        loaded(base, env.insert("ESPLORA_ADDRESS"@, v), file).backend.esplora_address == v,
        loaded(base, env.remove("ESPLORA_ADDRESS"@), file).backend.esplora_address == base.backend.esplora_address,
        loaded(base, env.insert("NETWORK"@, v), file).backend.network == v,
        loaded(base, env.remove("NETWORK"@), file).backend.network == base.backend.network,
        loaded(base, env.insert("DATA_DIR"@, v), file).backend.data_dir == v,
        loaded(base, env.remove("DATA_DIR"@), file).backend.data_dir == base.backend.data_dir,
        loaded(base, env.insert("PAYJOIN_DIRECTORY_URL"@, v), file).backend.payjoin_directory_url == v,
        loaded(base, env.remove("PAYJOIN_DIRECTORY_URL"@), file).backend.payjoin_directory_url == base.backend.payjoin_directory_url,
        loaded(base, env.insert("PAYJOIN_OHTTP_RELAY"@, v), file).backend.payjoin_ohttp_relay == v,
        loaded(base, env.remove("PAYJOIN_OHTTP_RELAY"@), file).backend.payjoin_ohttp_relay == base.backend.payjoin_ohttp_relay,
        loaded(base, env.insert("PAYJOIN_OHTTP_KEYS"@, v), file).backend.payjoin_ohttp_keys == v,
        loaded(base, env.remove("PAYJOIN_OHTTP_KEYS"@), file).backend.payjoin_ohttp_keys == base.backend.payjoin_ohttp_keys,
        loaded(base, env.insert("CONTROL_URL"@, v), file).backend.control_url == v,
        loaded(base, env.remove("CONTROL_URL"@), file).backend.control_url == base.backend.control_url,
        loaded(base, env.insert("TLS_CERT_PATH"@, v), file).tls_cert_path == v,
        loaded(base, env.remove("TLS_CERT_PATH"@), file).tls_cert_path == base.tls_cert_path,
        loaded(base, env.insert("TLS_KEY_PATH"@, v), file).tls_key_path == v,
        loaded(base, env.remove("TLS_KEY_PATH"@), file).tls_key_path == base.tls_key_path,
{
}

/// A switch that the environment sets is on for `1`, `true`, `TRUE`, `yes` and `YES`, and off for
/// everything else, whatever was configured. Without it the configured one stays.
pub proof fn law_switches_of_the_environment_go_first(
    base: Settings,
    env: Map<Seq<char>, Seq<char>>,
    file: Option<Seq<char>>,
    v: Seq<char>,
)
    ensures
        ({
            let on = v == "1"@ || v == "true"@ || v == "TRUE"@ || v == "yes"@ || v == "YES"@;
            &&& loaded(base, env.insert("PAYJOIN_RECEIVER_INPUTS"@, v), file).backend.payjoin_receiver_inputs == on
            &&& loaded(base, env.remove("PAYJOIN_RECEIVER_INPUTS"@), file).backend.payjoin_receiver_inputs == base.backend.payjoin_receiver_inputs
            &&& loaded(base, env.insert("TLS_ENABLE"@, v), file).tls_enable == on
            &&& loaded(base, env.remove("TLS_ENABLE"@), file).tls_enable == base.tls_enable
        }),
{
}

/// A number that the environment gives goes before the one that was configured where it can be read
/// and fits; where it does not, or without it, the configured one stays.
pub proof fn law_numbers_of_the_environment_go_first(
    base: Settings,
    env: Map<Seq<char>, Seq<char>>,
    file: Option<Seq<char>>,
    v: Seq<char>,
)
    ensures
        match parsed_number(v, u32::MAX as u64) {
            Some(n) => loaded(base, env.insert("PAYJOIN_RECEIVER_INPUT_COUNT"@, v), file).backend.payjoin_receiver_input_count == n,
            None => loaded(base, env.insert("PAYJOIN_RECEIVER_INPUT_COUNT"@, v), file).backend.payjoin_receiver_input_count == base.backend.payjoin_receiver_input_count,
        },
        loaded(base, env.remove("PAYJOIN_RECEIVER_INPUT_COUNT"@), file).backend.payjoin_receiver_input_count == base.backend.payjoin_receiver_input_count,
        match parsed_number(v, u64::MAX) {
            Some(n) => loaded(base, env.insert("MINT_ONCHAIN_DEPOSIT_FEE_BPS"@, v), file).backend.payjoin_onchain_deposit_fee_bps == n,
            None => loaded(base, env.insert("MINT_ONCHAIN_DEPOSIT_FEE_BPS"@, v), file).backend.payjoin_onchain_deposit_fee_bps == base.backend.payjoin_onchain_deposit_fee_bps,
        },
        loaded(base, env.remove("MINT_ONCHAIN_DEPOSIT_FEE_BPS"@), file).backend.payjoin_onchain_deposit_fee_bps == base.backend.payjoin_onchain_deposit_fee_bps,
        match parsed_number(v, u16::MAX as u64) {
            Some(n) => loaded(base, env.insert("SERVER_PORT"@, v), file).server_port == n,
            None => loaded(base, env.insert("SERVER_PORT"@, v), file).server_port == base.server_port,
        },
        loaded(base, env.remove("SERVER_PORT"@), file).server_port == base.server_port,
{
}

/// The mnemonic comes from the file that the environment names, trimmed, before it comes from the
/// environment itself, and from there before what was configured.
pub proof fn law_mnemonic_comes_from_the_file_first(
    base: Settings,
    env: Map<Seq<char>, Seq<char>>,
    path: Seq<char>,
    contents: Seq<char>,
    v: Seq<char>,
    file: Option<Seq<char>>,
)
    ensures
        loaded(base, env.insert("MNEMONIC_FILE"@, path), Some(contents)).backend.mnemonic == trimmed(
            contents,
        ),
        loaded(
            base,
            env.remove("MNEMONIC_FILE"@).insert("MNEMONIC"@, v),
            file,
        ).backend.mnemonic == v,
        loaded(
            base,
            env.remove("MNEMONIC_FILE"@).remove("MNEMONIC"@),
            file,
        ).backend.mnemonic == base.backend.mnemonic,
{
    reveal_strlit("MNEMONIC_FILE");
    reveal_strlit("MNEMONIC");
    assert("MNEMONIC_FILE"@.len() != "MNEMONIC"@.len());
}

/// What the environment has no say in stays as it was configured.
pub proof fn law_rest_is_as_configured(
    base: Settings,
    env: Map<Seq<char>, Seq<char>>,
    file: Option<Seq<char>>,
)
    ensures
        loaded(base, env, file).backend_type == base.backend_type,
        loaded(base, env, file).backend.bitcoind_address == base.backend.bitcoind_address,
        loaded(base, env, file).backend.bitcoind_user == base.backend.bitcoind_user,
        loaded(base, env, file).backend.bitcoind_pass == base.backend.bitcoind_pass,
        loaded(base, env, file).keep_alive_interval == base.keep_alive_interval,
        loaded(base, env, file).keep_alive_timeout == base.keep_alive_timeout,
        loaded(base, env, file).max_connection_age == base.max_connection_age,
{
}

/// What a [`BackendConfig`] says is what its fields hold, each under its own name.
pub proof fn law_backend_config_says_what_it_holds(x: BackendConfig)
    ensures
        x@.mnemonic == x.mnemonic@,
        x@.server_address == x.server_address@,
        x@.server_access_token == x.server_access_token@,
        x@.esplora_address == x.esplora_address@,
        x@.network == x.network@,
        x@.data_dir == x.data_dir@,
        x@.bitcoind_address == x.bitcoind_address@,
        x@.bitcoind_user == x.bitcoind_user@,
        x@.bitcoind_pass == x.bitcoind_pass@,
        x@.payjoin_directory_url == x.payjoin_directory_url@,
        x@.payjoin_ohttp_relay == x.payjoin_ohttp_relay@,
        x@.payjoin_ohttp_keys == x.payjoin_ohttp_keys@,
        x@.control_url == x.control_url@,
        x@.payjoin_receiver_inputs == x.payjoin_receiver_inputs,
        x@.payjoin_receiver_input_count == x.payjoin_receiver_input_count,
        x@.payjoin_onchain_deposit_fee_bps == x.payjoin_onchain_deposit_fee_bps,
{
}

/// What a [`Config`] says is what its fields hold, each under its own name.
pub proof fn law_config_says_what_it_holds(x: Config)
    ensures
        x@.backend_type == x.backend_type@,
        x@.backend == x.backend@,
        x@.server_port == x.server_port,
        x@.tls_enable == x.tls_enable,
        x@.tls_cert_path == x.tls_cert_path@,
        x@.tls_key_path == x.tls_key_path@,
        x@.keep_alive_interval == opt_text(x.keep_alive_interval),
        x@.keep_alive_timeout == opt_text(x.keep_alive_timeout),
        x@.max_connection_age == opt_text(x.max_connection_age),
{
}

} // verus!
