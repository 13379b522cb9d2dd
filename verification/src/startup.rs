//! Starting up: what the wallet is opened with, which quotes are dropped, where the OHTTP keys come
//! from, how long to wait for the Ark server, and which jobs are run.

use crate::adapters::{
    bech32_decode, bech32_decoded, check_ohttp_keys, expand_ohttp_keys, hex_decode, hex_error,
    mnemonic_seed, ohttp_keys_error, parse_mnemonic, short_ohttp_keys, unhex,
};
use crate::ark_backend::{ArkBackend, BackendView};
use crate::ark_store::ArkStateStore;
use crate::network::{network_named, parse_network, Network};
use crate::payjoin_receiver::{PayjoinConfig, PayjoinReceiver, PayjoinSettings, ReceiverView};
use crate::payjoin_state::{OnRampRow, OnRampState, OnRampStateStore, OnRampView};
use crate::settings::{number_over, over_number, BackendConfig, BackendSettings};
use crate::table::Table;
use crate::telemetry::TelemetryClient;
use crate::text::{
    ascii_lowered, cat2, cat3, law_separator_parts_the_pieces, opt_text, parse_number, parsed_number, pieces, split, str_eq, texts,
    to_ascii_lower, trim, trimmed,
};
use vstd::prelude::*;

verus! {

// ---- the wallet -----------------------------------------------------------------------------

/// What the wallet is opened with.
pub struct WalletPlan {
    pub seed: Vec<u8>,
    pub network: Network,
    pub server_address: String,
    pub server_access_token: Option<String>,
    pub esplora_address: Option<String>,
    pub bitcoind_address: Option<String>,
    pub bitcoind_user: Option<String>,
    pub bitcoind_pass: Option<String>,
}

/// What a [`WalletPlan`] says.
pub struct WalletSettings {
    pub seed: Seq<u8>,
    pub network: Network,
    pub server_address: Seq<char>,
    pub server_access_token: Option<Seq<char>>,
    pub esplora_address: Option<Seq<char>>,
    pub bitcoind_address: Option<Seq<char>>,
    pub bitcoind_user: Option<Seq<char>>,
    pub bitcoind_pass: Option<Seq<char>>,
}

impl View for WalletPlan {
    type V = WalletSettings;

    open spec fn view(&self) -> WalletSettings {
        WalletSettings {
            seed: self.seed@,
            network: self.network,
            server_address: self.server_address@,
            server_access_token: opt_text(self.server_access_token),
            esplora_address: opt_text(self.esplora_address),
            bitcoind_address: opt_text(self.bitcoind_address),
            bitcoind_user: opt_text(self.bitcoind_user),
            bitcoind_pass: opt_text(self.bitcoind_pass),
        }
    }
}

/// What the wallet is opened with, given its seed. Esplora is the chain source where it is
/// configured, and else bitcoind is; never both.
pub open spec fn wallet_settings(config: BackendSettings, seed: Seq<u8>) -> WalletSettings {
    let esplora = trimmed(config.esplora_address).len() > 0;
    let token = trimmed(config.server_access_token);
    WalletSettings {
        seed,
        network: network_named(config.network),
        server_address: config.server_address,
        server_access_token: if token.len() > 0 {
            Some(token)
        } else {
            None
        },
        esplora_address: if esplora {
            Some(config.esplora_address)
        } else {
            None
        },
        bitcoind_address: if esplora {
            None
        } else {
            Some(config.bitcoind_address)
        },
        bitcoind_user: if esplora {
            None
        } else {
            Some(config.bitcoind_user)
        },
        bitcoind_pass: if esplora {
            None
        } else {
            Some(config.bitcoind_pass)
        },
    }
}

/// What a seed that was read says, or what is wrong with the mnemonic.
pub open spec fn seed_result(r: Result<Vec<u8>, String>) -> Result<Seq<u8>, Seq<char>> {
    match r {
        Ok(seed) => Ok(seed@),
        Err(e) => Err(e@),
    }
}

/// Decides what the wallet is opened with, given what reading the mnemonic gave.
pub fn plan_wallet_with(config: &BackendConfig, seed: Result<Vec<u8>, String>) -> (r: Result<
    WalletPlan,
    String,
>)
    ensures
        match seed_result(seed) {
            Ok(s) => r matches Ok(plan) && plan@ == wallet_settings(config@, s),
            Err(e) => r matches Err(text) && text@ == "Invalid mnemonic: "@ + e,
        },
{
    let seed = match seed {
        Ok(s) => s,
        Err(e) => {
            return Err(cat2("Invalid mnemonic: ", e.as_str()));
        },
    };
    let use_esplora = trim(config.esplora_address.as_str()).as_str().unicode_len() > 0;
    let token = trim(config.server_access_token.as_str());
    let has_token = token.as_str().unicode_len() > 0;
    Ok(
        WalletPlan {
            seed,
            network: parse_network(config.network.as_str()),
            server_address: config.server_address.clone(),
            server_access_token: if has_token {
                Some(token)
            } else {
                None
            },
            esplora_address: if use_esplora {
                Some(config.esplora_address.clone())
            } else {
                None
            },
            bitcoind_address: if use_esplora {
                None
            } else {
                Some(config.bitcoind_address.clone())
            },
            bitcoind_user: if use_esplora {
                None
            } else {
                Some(config.bitcoind_user.clone())
            },
            bitcoind_pass: if use_esplora {
                None
            } else {
                Some(config.bitcoind_pass.clone())
            },
        },
    )
}

/// Decides what the wallet is opened with.
pub fn plan_wallet(config: &BackendConfig) -> (r: Result<WalletPlan, String>)
    ensures
        match mnemonic_seed(config@.mnemonic) {
            Ok(s) => r matches Ok(plan) && plan@ == wallet_settings(config@, s),
            Err(e) => r matches Err(text) && text@ == "Invalid mnemonic: "@ + e,
        },
{
    plan_wallet_with(config, parse_mnemonic(config.mnemonic.as_str()))
}

/// The wallet has exactly one chain source.
pub proof fn law_one_chain_source(config: BackendSettings, seed: Seq<u8>)
    ensures
        ({
            let w = wallet_settings(config, seed);
            &&& (w.esplora_address is Some) != (w.bitcoind_address is Some)
            &&& (w.bitcoind_user is Some) == (w.bitcoind_address is Some)
            &&& (w.bitcoind_pass is Some) == (w.bitcoind_address is Some)
        }),
{
}

// ---- dropping stale quotes ------------------------------------------------------------------

/// The items of a comma-separated list: trimmed, and without the empty ones.
pub open spec fn listed(list: Seq<char>) -> Seq<Seq<char>> {
    pieces(list, ',').map_values(|s: Seq<char>| trimmed(s)).filter(|s: Seq<char>| s.len() > 0)
}

/// Splits a comma-separated list.
pub fn list_items(list: &str) -> (items: Vec<String>)
    ensures
        texts(items@) == listed(list@),
{
    let parts = split(list, ',');
    let ghost trimmed_parts = pieces(list@, ',').map_values(|s: Seq<char>| trimmed(s));
    let ghost kept = |s: Seq<char>| s.len() > 0;
    let mut items: Vec<String> = Vec::new();
    proof {
        reveal(Seq::filter);
        assert(texts(items@) =~= trimmed_parts.take(0).filter(kept));
    }
    let mut i: usize = 0;
    while i < parts.len()
        invariant
            texts(parts@) == pieces(list@, ','),
            trimmed_parts == pieces(list@, ',').map_values(|s: Seq<char>| trimmed(s)),
            kept == (|s: Seq<char>| s.len() > 0),
            i <= parts@.len(),
            texts(items@) == trimmed_parts.take(i as int).filter(kept),
        decreases parts@.len() - i,
    {
        let ghost before = texts(items@);
        let item = trim(parts[i].as_str());
        proof {
            assert(texts(parts@)[i as int] == parts@[i as int]@);
            assert(trimmed_parts[i as int] == item@);
            crate::seqs::lemma_filter_next(trimmed_parts, kept, i as int);
        }
        if item.as_str().unicode_len() > 0 {
            items.push(item);
            proof {
                assert(texts(items@) =~= before.push(trimmed_parts[i as int]));
            }
        }
        i += 1;
    }
    proof {
        assert(trimmed_parts.take(i as int) =~= trimmed_parts);
    }
    items
}

/// The changes that drop several quotes.
pub open spec fn drop_rows(ids: Seq<Seq<char>>) -> Seq<OnRampRow> {
    ids.map_values(|id: Seq<char>| OnRampRow::QuoteRemoved { quote_id: id })
}

/// Drops the quotes that are listed, and no others.
pub fn prune_quotes(store: &mut OnRampStateStore, list: &str)
    ensures
        final(store)@ == old(store)@.put_all(drop_rows(listed(list@))),
{
    let items = list_items(list);
    let ghost start = store@;
    let ghost rows = drop_rows(listed(list@));
    let mut i: usize = 0;
    while i < items.len()
        invariant
            texts(items@) == listed(list@),
            rows == drop_rows(listed(list@)),
            i <= items@.len(),
            store@ == start.put_all(rows.take(i as int)),
        decreases items@.len() - i,
    {
        store.remove_quote(items[i].as_str());
        proof {
            assert(texts(items@)[i as int] == items@[i as int]@);
            assert(rows.take(i + 1).drop_last() =~= rows.take(i as int));
            assert(rows.take(i + 1).last() == rows[i as int]);
        }
        i += 1;
    }
    proof {
        assert(rows.take(i as int) =~= rows);
    }
}

/// Pruning takes out the listed quotes and nothing else: session logs, locks and everything that
/// was handed out stay.
pub proof fn law_pruning_takes_only_listed(store: OnRampView, ids: Seq<Seq<char>>)
    ensures
        ({
            let after = store.put_all(drop_rows(ids)).state;
            &&& after == (OnRampState { quotes: after.quotes, ..store.state })
            &&& forall|q: Seq<char>| #[trigger]
                after.quotes.dom().contains(q) <==> store.state.quotes.dom().contains(q)
                    && !ids.contains(q)
            &&& forall|q: Seq<char>| #[trigger]
                after.quotes.dom().contains(q) ==> after.quotes[q] == store.state.quotes[q]
        }),
    decreases ids.len(),
{
    let rows = drop_rows(ids);
    if ids.len() > 0 {
        let front = ids.drop_last();
        law_pruning_takes_only_listed(store, front);
        assert(rows.drop_last() =~= drop_rows(front));
        assert(rows.last() == OnRampRow::QuoteRemoved { quote_id: ids.last() });
        assert forall|q: Seq<char>| #[trigger]
            ids.contains(q) == (front.contains(q) || q == ids.last()) by {
            if ids.contains(q) {
                let j = choose|j: int| 0 <= j < ids.len() && ids[j] == q;
                if j < front.len() {
                    assert(front[j] == q);
                }
            }
            if front.contains(q) {
                let j = choose|j: int| 0 <= j < front.len() && front[j] == q;
                assert(ids[j] == q);
            }
            assert(ids[ids.len() - 1] == ids.last());
        }
    }
}

// ---- OHTTP keys -----------------------------------------------------------------------------

/// Where the OHTTP keys come from.
pub enum OhttpSource {
    /// They have to be fetched from the directory.
    Fetch,
    /// They are configured.
    Configured { keys: Vec<u8> },
    /// What is configured cannot be used.
    Invalid { error: String },
}

/// What an [`OhttpSource`] says.
pub enum OhttpChoice {
    Fetch,
    Configured { keys: Seq<u8> },
    Invalid { error: Seq<char> },
}

impl View for OhttpSource {
    type V = OhttpChoice;

    open spec fn view(&self) -> OhttpChoice {
        match self {
            OhttpSource::Fetch => OhttpChoice::Fetch,
            OhttpSource::Configured { keys } => OhttpChoice::Configured { keys: keys@ },
            OhttpSource::Invalid { error } => OhttpChoice::Invalid { error: error@ },
        }
    }
}

/// Whether the part before the separator of a bech32 text says that OHTTP keys follow.
pub open spec fn names_ohttp_keys(part: Seq<char>) -> bool {
    ascii_lowered(part) == "oh"@
}

/// What comes of keys that could be read, or not.
pub open spec fn keys_choice(keys: Result<Seq<u8>, Seq<char>>) -> OhttpChoice {
    match keys {
        Ok(keys) => OhttpChoice::Configured { keys },
        Err(error) => OhttpChoice::Invalid { error },
    }
}

/// Where the OHTTP keys come from. They are configured either as a key configuration in hex, or in
/// its short form as a bech32 text that begins with `OH1`.
pub open spec fn ohttp_choice(configured: Seq<char>) -> OhttpChoice {
    let text = trimmed(configured);
    if text.len() == 0 {
        OhttpChoice::Fetch
    } else {
        match unhex(text) {
            Some(bytes) => keys_choice(
                match ohttp_keys_error(bytes) {
                    None => Ok(bytes),
                    Some(e) => Err(e),
                },
            ),
            None => match bech32_decoded(text) {
                Some((part, bytes)) if names_ohttp_keys(part) => keys_choice(
                    short_ohttp_keys(bytes),
                ),
                _ => OhttpChoice::Invalid { error: hex_error(text) },
            },
        }
    }
}

/// Takes in the bytes of OHTTP keys that are configured in hex, given what checking them gave.
pub fn configured_ohttp_keys(keys: Vec<u8>, check: Result<(), String>) -> (r: OhttpSource)
    ensures
        r@ == keys_choice(
            match check {
                Ok(_) => Ok(keys@),
                Err(e) => Err(e@),
            },
        ),
{
    match check {
        Ok(_) => OhttpSource::Configured { keys },
        Err(e) => OhttpSource::Invalid { error: e },
    }
}

/// Takes in OHTTP keys that are configured in bech32, given the part before the separator, what
/// reading the bytes behind it gave, and what is to be said where no keys follow.
pub fn bech32_ohttp_keys(part: &str, keys: Result<Vec<u8>, String>, no_keys: String) -> (r:
    OhttpSource)
    ensures
        r@ == if names_ohttp_keys(part@) {
            keys_choice(
                match keys {
                    Ok(k) => Ok(k@),
                    Err(e) => Err(e@),
                },
            )
        } else {
            OhttpChoice::Invalid { error: no_keys@ }
        },
{
    if !str_eq(to_ascii_lower(part).as_str(), "oh") {
        return OhttpSource::Invalid { error: no_keys };
    }
    match keys {
        Ok(keys) => OhttpSource::Configured { keys },
        Err(error) => OhttpSource::Invalid { error },
    }
}

/// Decides where the OHTTP keys come from. Configured keys are handed on in a form that can be
/// read.
pub fn ohttp_source(configured: &str) -> (r: OhttpSource)
    ensures
        r@ == ohttp_choice(configured@),
        r@ matches OhttpChoice::Configured { keys } ==> ohttp_keys_error(keys) is None,
{
    let text = trim(configured);
    if text.as_str().unicode_len() == 0 {
        return OhttpSource::Fetch;
    }
    match hex_decode(text.as_str()) {
        Ok(keys) => {
            let check = check_ohttp_keys(&keys);
            configured_ohttp_keys(keys, check)
        },
        Err(error) => match bech32_decode(text.as_str()) {
            Some((part, bytes)) => {
                let keys = expand_ohttp_keys(&bytes);
                bech32_ohttp_keys(part.as_str(), keys, error)
            },
            None => OhttpSource::Invalid { error },
        },
    }
}

// ---- waiting for the Ark server -------------------------------------------------------------

/// How long to wait between two attempts to reach the Ark server.
pub const ARK_RETRY_INTERVAL_SECS: u64 = 5;

/// How long to try to reach the Ark server.
pub const ARK_MAX_WAIT_SECS: u64 = 120;

/// Decides what to do when the Ark server does not answer: wait and try again, or give up. The
/// least amount to board is never guessed.
pub fn ark_unreachable(elapsed_secs: u64, last_error: &str) -> (r: Result<u64, String>)
    ensures
        match r {
            Ok(wait) => elapsed_secs < ARK_MAX_WAIT_SECS && wait == ARK_RETRY_INTERVAL_SECS,
            Err(text) => elapsed_secs >= ARK_MAX_WAIT_SECS && text@
                == "Ark server unreachable: could not fetch min_board_amount after 120s (last error: "@
                + last_error@
                + "); refusing to start rather than defaulting the board floor to 1 sat (would strand sub-minimum deposits)"@,
        },
        r is Ok <==> elapsed_secs < 120,
        r matches Ok(wait) ==> wait == 5,
{
    if elapsed_secs < ARK_MAX_WAIT_SECS {
        Ok(ARK_RETRY_INTERVAL_SECS)
    } else {
        Err(
            cat3(
                "Ark server unreachable: could not fetch min_board_amount after 120s (last error: ",
                last_error,
                "); refusing to start rather than defaulting the board floor to 1 sat (would strand sub-minimum deposits)",
            ),
        )
    }
}

// ---- the processor --------------------------------------------------------------------------

impl ArkBackend {
    /// The processor, from its configuration, its stores, the OHTTP keys if there are any, and the
    /// least amount that the server boards.
    pub fn new(
        config: &BackendConfig,
        state_store: ArkStateStore,
        onramp_store: OnRampStateStore,
        ohttp_keys: Option<Vec<u8>>,
        min_board_amount_sat: u64,
    ) -> (backend: ArkBackend)
        ensures
            backend@ == (BackendView {
                store: state_store@,
                receiver: ReceiverView {
                    config: PayjoinSettings {
                        directory_url: config@.payjoin_directory_url,
                        ohttp_relay: config@.payjoin_ohttp_relay,
                        ohttp_keys: match ohttp_keys {
                            Some(k) => Some(k@),
                            None => None,
                        },
                        control_url: config@.control_url,
                    },
                    onramp: onramp_store@,
                    control_url: config@.control_url,
                    inputs_enabled: config@.payjoin_receiver_inputs,
                    input_count: config@.payjoin_receiver_input_count,
                    locked: Set::empty(),
                    min_board_amount_sat,
                    fee_bps: config@.payjoin_onchain_deposit_fee_bps,
                },
                network: network_named(config@.network),
                min_board_amount_sat,
                active: false,
            }),
    {
        let telemetry = TelemetryClient::new(config.control_url.clone());
        let payjoin = PayjoinReceiver::new(
            PayjoinConfig {
                directory_url: config.payjoin_directory_url.clone(),
                ohttp_relay: config.payjoin_ohttp_relay.clone(),
                ohttp_keys,
                control_url: config.control_url.clone(),
            },
            onramp_store,
            telemetry,
            config.payjoin_receiver_inputs,
            config.payjoin_receiver_input_count,
            min_board_amount_sat,
            config.payjoin_onchain_deposit_fee_bps,
        );
        ArkBackend {
            state_store,
            payjoin,
            network: parse_network(config.network.as_str()),
            min_board_amount_sat,
            wait_invoice_active: false,
        }
    }
}

// ---- jobs -----------------------------------------------------------------------------------

/// Whether the environment asks for a job.
pub open spec fn asks_for(env: Map<Seq<char>, Seq<char>>, name: Seq<char>) -> bool {
    env.dom().contains(name) && (env[name] == "1"@ || env[name] == "true"@)
}

/// Tests whether the environment asks for a job.
pub fn wants(env: &Table<String>, name: &str) -> (r: bool)
    ensures
        r == asks_for(env@, name@),
{
    match env.get(name) {
        Some(v) => str_eq(v.as_str(), "1") || str_eq(v.as_str(), "true"),
        None => false,
    }
}

/// The jobs that the environment asks for.
pub struct Jobs {
    /// Move this amount from the Ark reserve to the on-chain wallet, once.
    pub test_offboard_sat: Option<u64>,
    /// Split the on-chain reserve into coins between these amounts, once.
    pub split_range: Option<(u64, u64)>,
    /// Attest the reserve, once.
    pub attest_once: bool,
    /// Attest the reserve every so many seconds.
    pub attest_every_secs: Option<u64>,
    /// Publish attestations.
    pub publish: bool,
}

/// Reads which jobs the environment asks for.
pub fn jobs_from_env(env: &Table<String>) -> (jobs: Jobs)
    ensures
        jobs.test_offboard_sat == if env@.dom().contains("RECYCLER_TEST_OFFBOARD_SAT"@) {
            parsed_number(env@["RECYCLER_TEST_OFFBOARD_SAT"@], u64::MAX)
        } else {
            None::<u64>
        },
        jobs.split_range == if asks_for(env@, "RECYCLER_SPLIT_NOW"@) {
            Some(
                (
                    number_over(env@, "MINT_LEND_MIN_SAT"@, 5000, u64::MAX),
                    number_over(env@, "MINT_LEND_MAX_SAT"@, 20000, u64::MAX),
                ),
            )
        } else {
            None::<(u64, u64)>
        },
        jobs.attest_once == asks_for(env@, "POR_ATTEST_ONCE"@),
        jobs.attest_every_secs == if asks_for(env@, "POR_ENABLE"@) {
            let secs = number_over(env@, "POR_INTERVAL_SECS"@, 6000, u64::MAX);
            Some(
                if secs > 0 {
                    secs
                } else {
                    6000
                },
            )
        } else {
            None::<u64>
        },
        jobs.publish == asks_for(env@, "POR_PUBLISH"@),
{
    let test_offboard_sat: Option<u64> = match env.get("RECYCLER_TEST_OFFBOARD_SAT") {
        Some(v) => parse_number(v.as_str(), u64::MAX),
        None => None,
    };
    let split_range: Option<(u64, u64)> = if wants(env, "RECYCLER_SPLIT_NOW") {
        Some(
            (
                over_number(env, "MINT_LEND_MIN_SAT", 5000, u64::MAX),
                over_number(env, "MINT_LEND_MAX_SAT", 20000, u64::MAX),
            ),
        )
    } else {
        None
    };
    let attest_every_secs: Option<u64> = if wants(env, "POR_ENABLE") {
        let secs: u64 = over_number(env, "POR_INTERVAL_SECS", 6000, u64::MAX);
        Some(
            if secs > 0 {
                secs
            } else {
                6000
            },
        )
    } else {
        None
    };
    Jobs {
        test_offboard_sat,
        split_range,
        attest_once: wants(env, "POR_ATTEST_ONCE"),
        attest_every_secs,
        publish: wants(env, "POR_PUBLISH"),
    }
}

/// What a [`WalletPlan`] says is what its fields hold, each under its own name.
pub proof fn law_wallet_plan_says_what_it_holds(x: WalletPlan)
    ensures
        x@.seed == x.seed@,
        x@.network == x.network,
        x@.server_address == x.server_address@,
        x@.server_access_token == opt_text(x.server_access_token),
        x@.esplora_address == opt_text(x.esplora_address),
        x@.bitcoind_address == opt_text(x.bitcoind_address),
        x@.bitcoind_user == opt_text(x.bitcoind_user),
        x@.bitcoind_pass == opt_text(x.bitcoind_pass),
{
}

/// What an [`OhttpSource`] says is of its own kind, with what its fields hold.
pub proof fn law_ohttp_source_says_what_it_holds(x: OhttpSource)
    ensures
        x is Fetch <==> x@ is Fetch,
        x is Configured <==> x@ is Configured,
        x matches OhttpSource::Configured { keys } ==> {
            &&& x@ matches OhttpChoice::Configured { keys: said_keys }
            &&& said_keys == keys@
        },
        x is Invalid <==> x@ is Invalid,
        x matches OhttpSource::Invalid { error } ==> {
            &&& x@ matches OhttpChoice::Invalid { error: said_error }
            &&& said_error == error@
        },
{
}

/// The wallet is opened with the given seed, on the configured network and at the configured server,
/// with the access token unless it is blank. Its chain source is as it was configured: Esplora unless
/// that is blank, and else bitcoind with its user and password.
pub proof fn law_wallet_is_opened_as_configured(config: BackendSettings, seed: Seq<u8>)
    ensures
        ({
            let w = wallet_settings(config, seed);
            let token = trimmed(config.server_access_token);
            let esplora = trimmed(config.esplora_address);
            &&& w.seed == seed && w.server_address == config.server_address
            &&& w.network == network_named(config.network)
            &&& token.len() > 0 ==> w.server_access_token == Some(token)
            &&& token.len() == 0 ==> w.server_access_token is None
            &&& esplora.len() > 0 ==> w.esplora_address == Some(config.esplora_address)
            &&& esplora.len() == 0 ==> w.bitcoind_address == Some(config.bitcoind_address)
                && w.bitcoind_user == Some(config.bitcoind_user) && w.bitcoind_pass == Some(
                config.bitcoind_pass,
            )
        }),
{
}

/// A comma parts the items of a list. A list without one is one item, trimmed, or none where it is
/// blank.
pub proof fn law_lists_are_parted_by_commas(a: Seq<char>, b: Seq<char>)
    ensures
        listed(a.push(',') + b) == listed(a) + listed(b),
        !a.contains(',') && trimmed(a).len() > 0 ==> listed(a) == seq![trimmed(a)],
        !a.contains(',') && trimmed(a).len() == 0 ==> listed(a) == Seq::<Seq<char>>::empty(),
{
    let f = |s: Seq<char>| trimmed(s);
    let p = |s: Seq<char>| s.len() > 0;
    law_separator_parts_the_pieces(a, b, ',');
    let x = pieces(a, ',').map_values(f);
    let y = pieces(b, ',').map_values(f);
    assert((pieces(a, ',') + pieces(b, ',')).map_values(f) =~= x + y);
    lemma_filter_of_both(x, y, p);
    if !a.contains(',') {
        assert(x =~= seq![trimmed(a)]);
        let none = Seq::<Seq<char>>::empty();
        reveal(Seq::filter);
        assert(x.drop_last() =~= none);
        assert(none.filter(p) =~= none);
        assert(x.last() == trimmed(a));
        assert(seq![trimmed(a)] =~= none.push(trimmed(a)));
    }
}

proof fn lemma_filter_of_both<A>(x: Seq<A>, y: Seq<A>, p: spec_fn(A) -> bool)
    ensures
        (x + y).filter(p) == x.filter(p) + y.filter(p),
    decreases y.len(),
{
    reveal(Seq::filter);
    if y.len() == 0 {
        assert(x + y =~= x);
        assert(x.filter(p) + y.filter(p) =~= x.filter(p));
    } else {
        lemma_filter_of_both(x, y.drop_last(), p);
        assert((x + y).drop_last() =~= x + y.drop_last());
        assert((x + y).last() == y.last());
        if p(y.last()) {
            assert(x.filter(p) + y.filter(p) =~= (x.filter(p) + y.drop_last().filter(p)).push(
                y.last(),
            ));
        }
    }
}

/// OHTTP keys are fetched exactly where nothing but white space is configured. Keys in hex are taken
/// as they are if they can be read and refused if not; a bech32 text is taken only behind `oh`, in
/// either case, and everything else is refused.
pub proof fn law_configured_keys_are_taken(configured: Seq<char>)
    ensures
        ({
            let text = trimmed(configured);
            let choice = ohttp_choice(configured);
            &&& choice is Fetch <==> text.len() == 0
            &&& text.len() > 0 ==> (unhex(text) matches Some(bytes) ==> match ohttp_keys_error(
                bytes,
            ) {
                None => choice == (OhttpChoice::Configured { keys: bytes }),
                Some(error) => choice == (OhttpChoice::Invalid { error }),
            })
            &&& text.len() > 0 && unhex(text) is None ==> match bech32_decoded(text) {
                None => choice is Invalid,
                Some((part, bytes)) => {
                    &&& ascii_lowered(part) != "oh"@ ==> choice is Invalid
                    &&& ascii_lowered(part) == "oh"@ ==> match short_ohttp_keys(bytes) {
                        Ok(keys) => choice == (OhttpChoice::Configured { keys }),
                        Err(error) => choice == (OhttpChoice::Invalid { error }),
                    }
                },
            }
        }),
{
}

/// The environment asks for a job by `1` or `true`, and by nothing else.
pub proof fn law_jobs_are_asked_for(
    env: Map<Seq<char>, Seq<char>>,
    name: Seq<char>,
    v: Seq<char>,
)
    ensures
        asks_for(env.insert(name, v), name) <==> v == "1"@ || v == "true"@,
        !asks_for(env.remove(name), name),
{
}

} // verus!
