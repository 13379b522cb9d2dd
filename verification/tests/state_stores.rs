use ark_onramp::ark_store::{ArkStateStore, StateWrite};
use ark_onramp::intents::{
    LightningSendIntentRecord, LightningSendIntentState, OnchainReceiveIntentRecord,
    OnchainReceiveIntentState, OnchainSendIntentRecord, OnchainSendIntentState,
};
use ark_onramp::payjoin_state::{OnRampQuoteRecord, OnRampStateStore, OnRampWrite, StorageError};

fn receive(quote_id: &str, outpoint: &str, finalized: bool) -> OnchainReceiveIntentRecord {
    OnchainReceiveIntentRecord {
        quote_id: quote_id.to_string(),
        deposit_outpoint: outpoint.to_string(),
        gross_sat: 1000,
        state: if finalized {
            OnchainReceiveIntentState::Finalized {
                board_txid: "tx".to_string(),
                board_vout: 0,
                board_vtxo_ids: vec!["v".to_string()],
                fee_sat: 10,
                amount_sat: 990,
                finalized_at: 5,
            }
        } else {
            OnchainReceiveIntentState::Detected { detected_at: 4 }
        },
    }
}

fn send(quote_id: &str, amount_sat: u64) -> OnchainSendIntentRecord {
    OnchainSendIntentRecord {
        quote_id: quote_id.to_string(),
        address: "addr".to_string(),
        amount_sat,
        state: OnchainSendIntentState::Broadcast {
            txid: "tx".to_string(),
            fee_sat: 2,
            broadcast_at: 3,
        },
    }
}

fn lightning(quote_id: &str, hash: &str) -> LightningSendIntentRecord {
    LightningSendIntentRecord {
        quote_id: quote_id.to_string(),
        payment_hash: hash.to_string(),
        invoice: "lnbc".to_string(),
        amount_sat: 7,
        estimated_fee_sat: 1,
        state: LightningSendIntentState::Pending { fee_sat: 1, started_at: 9 },
    }
}

fn quote(quote_id: &str) -> OnRampQuoteRecord {
    OnRampQuoteRecord {
        quote_id: quote_id.to_string(),
        keypair_index: 3,
        expiry_height: 100,
        board_script_hex: "5120".to_string(),
        board_address: "bcrt1p".to_string(),
        bip21_uri: "bitcoin:bcrt1p?pj=x".to_string(),
    }
}

#[test]
fn receives_are_keyed_by_outpoint_and_listed_in_order() {
    let mut store = ArkStateStore::open(Vec::new());
    store.put_receive_intent(&receive("q1", "b:0", false));
    store.put_receive_intent(&receive("q1", "a:0", true));
    store.put_receive_intent(&receive("q2", "c:0", true));
    let outpoints: Vec<String> =
        store.receive_intents().into_iter().map(|i| i.deposit_outpoint).collect();
    assert_eq!(outpoints, vec!["a:0", "b:0", "c:0"]);
    assert!(store.get_receive_intent("d:0").is_none());
    assert_eq!(store.get_receive_intent("b:0").unwrap().quote_id, "q1");
    let for_q1 = store.finalized_receives_for_quote("q1");
    assert_eq!(for_q1.len(), 1);
    assert_eq!(for_q1[0].deposit_outpoint, "a:0");
    assert_eq!(store.next_unreported_finalized_receive().unwrap().deposit_outpoint, "a:0");
    store.mark_receive_reported("a:0");
    assert!(store.is_receive_reported("a:0"));
    assert!(!store.is_receive_reported("c:0"));
    assert_eq!(store.next_unreported_finalized_receive().unwrap().deposit_outpoint, "c:0");
    store.mark_receive_reported("c:0");
    assert!(store.next_unreported_finalized_receive().is_none());
}

#[test]
fn lightning_receives_are_found_both_ways() {
    let mut store = ArkStateStore::open(Vec::new());
    store.put_lightning_receive_quote("q2", "hash");
    store.put_lightning_receive_quote("q1", "hash");
    store.put_lightning_receive_quote("q3", "other");
    assert_eq!(store.get_lightning_receive_hash("q3"), Some("other".to_string()));
    assert_eq!(store.get_lightning_receive_hash("q4"), None);
    // The first quote in the order of the table answers for a shared hash.
    assert_eq!(store.lightning_receive_quote_for_hash("hash"), Some("q1".to_string()));
    assert_eq!(store.lightning_receive_quote_for_hash("none"), None);
    assert!(!store.is_lightning_receive_reported("q1"));
    store.mark_lightning_receive_reported("q1");
    assert!(store.is_lightning_receive_reported("q1"));
}

#[test]
fn sends_are_kept_and_marked() {
    let mut store = ArkStateStore::open(Vec::new());
    store.put_send("q2", &send("q2", 5));
    store.put_send("q1", &send("q1", 6));
    store.put_send("q2", &send("q2", 8));
    let sends = store.sends();
    assert_eq!(sends.len(), 2);
    assert_eq!(sends[0].0, "q1");
    assert_eq!(sends[1].1.amount_sat, 8);
    assert!(store.get_send("q3").is_none());
    assert!(!store.is_send_completed("q1"));
    store.mark_send_completed("q1");
    assert!(store.is_send_completed("q1"));
    store.put_lightning_send("h2", &lightning("q5", "h2"));
    store.put_lightning_send("h1", &lightning("q6", "h1"));
    assert_eq!(store.lightning_sends()[0].0, "h1");
    assert_eq!(store.lightning_send_for_quote("q5").unwrap().0, "h2");
    assert!(store.lightning_send_for_quote("q7").is_none());
    assert_eq!(store.get_lightning_send("h1").unwrap().quote_id, "q6");
    store.mark_lightning_send_completed("h1");
    assert!(store.is_lightning_send_completed("h1"));
    assert!(!store.is_lightning_send_completed("h2"));
}

#[test]
fn pending_rows_rebuild_the_store() {
    let mut store = ArkStateStore::open(Vec::new());
    store.put_receive_address("q1", "addr1");
    store.put_receive_intent(&receive("q1", "a:0", true));
    store.mark_receive_reported("a:0");
    store.put_lightning_receive_quote("q2", "hash");
    store.mark_lightning_receive_reported("q2");
    store.put_send("q3", &send("q3", 5));
    store.mark_send_completed("q3");
    store.put_lightning_send("h1", &lightning("q4", "h1"));
    store.mark_lightning_send_completed("h1");
    let rows = store.take_pending();
    assert_eq!(rows.len(), 9);
    assert!(matches!(&rows[0], StateWrite::ReceiveAddress { quote_id, address }
        if quote_id == "q1" && address == "addr1"));
    assert_eq!(store.take_pending().len(), 0);
    let mut reopened = ArkStateStore::open(rows);
    assert_eq!(reopened.take_pending().len(), 0);
    assert_eq!(reopened.receive_addresses().get("q1"), Some(&"addr1".to_string()));
    assert_eq!(reopened.get_receive_intent("a:0").unwrap().gross_sat, 1000);
    assert!(reopened.is_receive_reported("a:0"));
    assert_eq!(reopened.get_lightning_receive_hash("q2"), Some("hash".to_string()));
    assert!(reopened.is_lightning_receive_reported("q2"));
    assert_eq!(reopened.get_send("q3").unwrap().amount_sat, 5);
    assert!(reopened.is_send_completed("q3"));
    assert_eq!(reopened.get_lightning_send("h1").unwrap().amount_sat, 7);
    assert!(reopened.is_lightning_send_completed("h1"));
}

#[test]
fn quotes_read_back_and_are_pruned() {
    let mut store = OnRampStateStore::open(Vec::new());
    store.put_quote(&quote("q2"));
    store.put_quote(&quote("q1"));
    assert_eq!(store.get_quote("q1").unwrap().keypair_index, 3);
    let ids: Vec<String> = store.all_quotes().into_iter().map(|q| q.quote_id).collect();
    assert_eq!(ids, vec!["q1", "q2"]);
    store.remove_quote("q1");
    store.remove_quote("missing");
    assert!(store.get_quote("q1").is_none());
    assert_eq!(store.all_quotes().len(), 1);
}

#[test]
fn seen_inputs_stay_seen() {
    let mut store = OnRampStateStore::open(Vec::new());
    assert!(!store.is_input_seen("a:0"));
    store.mark_input_seen("a:0");
    store.mark_input_seen("a:0");
    assert!(store.is_input_seen("a:0"));
    assert!(!store.is_input_seen("a:1"));
}

#[test]
fn locks_are_released_for_one_quote() {
    let mut store = OnRampStateStore::open(Vec::new());
    store.lock_utxos("q1", &vec!["a:0".to_string(), "b:0".to_string()]);
    store.lock_utxos("q2", &vec!["c:0".to_string()]);
    assert_eq!(store.locked_utxos().len(), 3);
    assert_eq!(store.locked_utxos().get("a:0"), Some(&"q1".to_string()));
    store.unlock_utxos_for_quote("q1");
    assert_eq!(store.locked_utxos().len(), 1);
    assert!(store.locked_utxos().contains("c:0"));
    store.take_pending();
    // Nothing is left to release, so nothing is written.
    store.unlock_utxos_for_quote("q1");
    assert_eq!(store.take_pending().len(), 0);
}

#[test]
fn script_is_advertised_once() {
    let mut store = OnRampStateStore::open(Vec::new());
    assert!(!store.is_script_advertised("5120aa"));
    assert!(store.record_advertised_script("5120aa", "board:q1").is_ok());
    assert!(store.is_script_advertised("5120aa"));
    let StorageError(message) = store.record_advertised_script("5120aa", "board:q2").unwrap_err();
    assert_eq!(message, "no-address-reuse violation: script 5120aa was already advertised");
    assert!(store.record_advertised_script("5120bb", "change:q1").is_ok());
    assert_eq!(store.take_pending().len(), 2);
}

#[test]
fn session_events_are_logged_in_order() {
    let mut store = OnRampStateStore::open(Vec::new());
    let log = store.session_persister("q1");
    let other = store.session_persister("q10");
    assert!(!store.session_exists("q1"));
    for i in 0..12 {
        assert_eq!(log.next_seq(&store), i);
        log.save_event(&mut store, format!("event {}", i).as_str());
    }
    other.save_event(&mut store, "unrelated");
    let expected: Vec<String> = (0..12).map(|i| format!("event {}", i)).collect();
    assert_eq!(log.load(&store), expected);
    assert_eq!(other.load(&store), vec!["unrelated"]);
    assert!(store.session_exists("q1"));
    assert!(!store.session_exists("q"));
    log.close(&mut store);
    assert_eq!(log.load(&store).len(), 12);
    let rows = store.take_pending();
    assert!(matches!(&rows[0], OnRampWrite::SessionEvent { key, event }
        if key == "q1:000000000000" && event == "event 0"));
    assert!(matches!(rows.last(), Some(OnRampWrite::SessionClosed { quote_id }) if quote_id == "q1"));
    let reopened = OnRampStateStore::open(rows);
    assert_eq!(reopened.session_persister("q1").load(&reopened), expected);
}

#[test]
fn session_logs_are_told_apart() {
    let mut store = OnRampStateStore::open(Vec::new());
    let long = store.session_persister("a:b");
    let short = store.session_persister("a");
    long.save_event(&mut store, "first");
    store.session_persister("a:5").save_event(&mut store, "numbered");
    assert!(store.session_exists("a:b"));
    assert!(!store.session_exists("a"));
    assert!(!store.session_exists(""));
    assert_eq!(short.next_seq(&store), 0);
    short.save_event(&mut store, "second");
    assert_eq!(short.load(&store), vec!["second"]);
    assert_eq!(long.load(&store), vec!["first"]);
    assert!(!store.session_exists("a:000000000000"));
    // A key without a number is of no log.
    store.write(OnRampWrite::SessionEvent { key: "c:".to_string(), event: "x".to_string() });
    store.write(OnRampWrite::SessionEvent { key: "c:1x".to_string(), event: "x".to_string() });
    assert!(!store.session_exists("c"));
}

#[test]
fn pending_changes_rebuild_the_onramp_store() {
    let mut store = OnRampStateStore::open(Vec::new());
    store.put_quote(&quote("q1"));
    store.put_quote(&quote("q2"));
    store.remove_quote("q2");
    store.mark_input_seen("a:0");
    store.lock_utxos("q1", &vec!["m:0".to_string(), "m:1".to_string()]);
    store.unlock_utxos_for_quote("q1");
    store.lock_utxos("q1", &vec!["m:2".to_string()]);
    assert!(store.record_advertised_script("5120aa", "board:q1").is_ok());
    let rows = store.take_pending();
    let mut reopened = OnRampStateStore::open(rows);
    assert_eq!(reopened.all_quotes().len(), 1);
    assert_eq!(reopened.get_quote("q1").unwrap().bip21_uri, "bitcoin:bcrt1p?pj=x");
    assert!(reopened.is_input_seen("a:0"));
    assert_eq!(reopened.locked_utxos().len(), 1);
    assert!(reopened.locked_utxos().contains("m:2"));
    assert!(reopened.is_script_advertised("5120aa"));
    assert_eq!(reopened.take_pending().len(), 0);
}
