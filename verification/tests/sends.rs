use ark_onramp::ark_backend::ArkBackend;
use ark_onramp::ark_store::ArkStateStore;
use ark_onramp::intents::{
    LightningSendIntentRecord, LightningSendIntentState, OnchainSendIntentRecord,
    OnchainSendIntentState,
};
use ark_onramp::lightning_sends::{
    estimated_lightning_fee_sat, lightning_intent_from_bark_send, lightning_payment_quote,
    parse_payment_hash_hex, AcceptedLightning, FreshLightning, LightningPaymentRequest,
    LightningStart, LightningStatus,
};
use ark_onramp::onchain_payment::{
    AcceptedPayment, AwaitingEstimate, OnchainPaymentRequest, PaymentStart,
};
use ark_onramp::onchain_sends::reconcile_send_with;
use ark_onramp::payjoin_state::OnRampStateStore;
use ark_onramp::payment::{MeltQuoteState, PaymentError, PaymentEvent, PaymentIdentifier};
use ark_onramp::settings::BackendConfig;

const QUOTE: &str = "0b5a3c1e-7d24-4b8e-9f1a-3c2d1e0f9a8b";
const ADDRESS: &str = "tb1qw508d6qejxtdg4y5r3zarvary0c5xw7kxpjzsx";

fn backend() -> ArkBackend {
    ArkBackend::new(
        &BackendConfig::default(),
        ArkStateStore::open(Vec::new()),
        OnRampStateStore::open(Vec::new()),
        None,
        1,
    )
}

fn message(e: PaymentError) -> String {
    match e {
        PaymentError::Custom(m) => m,
        PaymentError::UnsupportedUnit => "unit".to_string(),
        PaymentError::UnsupportedPaymentOption => "option".to_string(),
    }
}

fn onchain(max_fee_sat: Option<u64>, fee_index: Option<u32>) -> OnchainPaymentRequest {
    OnchainPaymentRequest {
        quote_id: QUOTE.to_string(),
        address: ADDRESS.to_uppercase(),
        amount_sat: 20_000,
        max_fee_sat,
        fee_index,
    }
}

fn awaiting(b: &mut ArkBackend, max_fee_sat: Option<u64>) -> AwaitingEstimate {
    let accepted = AcceptedPayment::accept(onchain(max_fee_sat, Some(0))).ok().unwrap();
    match accepted.start(b) {
        Ok(PaymentStart::Estimate(awaiting)) => awaiting,
        _ => panic!("expected an estimate"),
    }
}

fn send_state(b: &ArkBackend) -> OnchainSendIntentState {
    b.state_store.get_send(QUOTE).unwrap().state
}

#[test]
fn onchain_payment_is_quoted() {
    let b = backend();
    let quote = b.onchain_payment_quote(&onchain(None, None), &Ok(321)).ok().unwrap();
    assert!(matches!(quote.request_lookup_id, PaymentIdentifier::QuoteId(q) if q == QUOTE));
    assert_eq!((quote.amount_sat, quote.fee_sat), (20_000, 321));
    assert_eq!(quote.state, MeltQuoteState::Unpaid);
    assert_eq!(quote.estimated_blocks, Some(6));
    let option = quote.fee_option.unwrap();
    assert_eq!((option.fee_index, option.fee_reserve_sat, option.estimated_blocks), (0, 321, 6));
    let e = b.onchain_payment_quote(&onchain(None, None), &Err("dust".to_string())).err().unwrap();
    assert_eq!(message(e), "Failed to estimate onchain payment: dust");
}

#[test]
fn addresses_are_checked() {
    let b = backend();
    // The address comes back in its canonical form.
    assert_eq!(b.parse_bitcoin_address(&ADDRESS.to_uppercase()).ok(), Some(ADDRESS.to_string()));
    let parse = "nowhere"
        .parse::<bitcoin::Address<bitcoin::address::NetworkUnchecked>>()
        .unwrap_err();
    assert_eq!(
        message(b.parse_bitcoin_address("nowhere").unwrap_err()),
        format!("Invalid address: {}", parse)
    );
    let mainnet = "bc1qw508d6qejxtdg4y5r3zarvary0c5xw7kv8f3t4";
    let mismatch = mainnet
        .parse::<bitcoin::Address<bitcoin::address::NetworkUnchecked>>()
        .unwrap()
        .require_network(bitcoin::Network::Signet)
        .unwrap_err();
    assert_eq!(
        message(b.parse_bitcoin_address(mainnet).unwrap_err()),
        format!("Address network mismatch: {}", mismatch)
    );
}

#[test]
fn only_the_one_fee_index_is_supported() {
    let e = AcceptedPayment::accept(onchain(None, Some(1))).err().unwrap();
    assert_eq!(message(e), "Unsupported onchain fee_index Some(1)");
    assert!(AcceptedPayment::accept(onchain(None, None)).is_ok());
}

#[test]
fn onchain_payment_is_written_down_before_it_is_made() {
    let mut b = backend();
    let waiting = awaiting(&mut b, Some(500));
    assert_eq!(waiting.address(), ADDRESS);
    assert_eq!(waiting.amount_sat(), 20_000);
    let sending = waiting.estimated_as(&mut b, &Ok(500), "id".to_string(), 70).ok().unwrap();
    assert!(matches!(
        send_state(&b),
        OnchainSendIntentState::Attempting { attempt: 1, fee_sat: 500, started_at: 70, attempt_id }
            if attempt_id == "id"
    ));
    assert_eq!(b.state_store.get_send(QUOTE).unwrap().address, ADDRESS);
    let response = sending.sent(&mut b, "txid", 71);
    assert_eq!(response.status, MeltQuoteState::Pending);
    assert_eq!(response.payment_proof, Some("txid".to_string()));
    assert_eq!(response.total_spent_sat, 0);
    assert!(matches!(
        send_state(&b),
        OnchainSendIntentState::Broadcast { fee_sat: 500, broadcast_at: 71, .. }
    ));
    // A quote is paid once: asking again gives what is known of the payment.
    let again = AcceptedPayment::accept(onchain(None, None)).ok().unwrap();
    match again.start(&mut b) {
        Ok(PaymentStart::Existing(known)) => {
            assert_eq!(known.status, MeltQuoteState::Pending);
            assert_eq!(known.payment_proof, Some("txid".to_string()));
        }
        _ => panic!("expected the existing payment"),
    }
}

#[test]
fn onchain_payment_over_the_fee_limit_is_not_made() {
    let mut b = backend();
    let waiting = awaiting(&mut b, Some(499));
    let e = waiting.estimated(&mut b, &Ok(500), 70).err().unwrap();
    assert_eq!(message(e), "Estimated onchain fee 500 sat exceeds max fee 499 sat");
    assert!(b.state_store.get_send(QUOTE).is_none());
    let waiting = awaiting(&mut b, None);
    let e = waiting.estimated(&mut b, &Err("no server".to_string()), 70).err().unwrap();
    assert_eq!(message(e), "Failed to estimate onchain payment: no server");
}

#[test]
fn failed_onchain_payment_needs_review() {
    let mut b = backend();
    let waiting = awaiting(&mut b, None);
    let sending = waiting.estimated(&mut b, &Ok(5), 70).ok().unwrap();
    match send_state(&b) {
        OnchainSendIntentState::Attempting { attempt_id, .. } => {
            assert_eq!(uuid::Uuid::parse_str(&attempt_id).unwrap().get_version_num(), 4);
        }
        other => panic!("{:?}", other),
    }
    let e = sending.send_failed(&mut b, "offline", 72);
    assert_eq!(message(e), "Failed to send onchain payment: offline");
    match send_state(&b) {
        OnchainSendIntentState::NeedsReview { reason, fee_sat, failed_at } => {
            assert_eq!((fee_sat, failed_at), (Some(5), 72));
            assert_eq!(
                reason,
                "Bark send_onchain returned an error after the offboard attempt was started: offline"
            );
        }
        other => panic!("{:?}", other),
    }
    // It is not tried again, and is told as pending.
    let again = AcceptedPayment::accept(onchain(None, None)).ok().unwrap();
    match again.start(&mut b) {
        Ok(PaymentStart::Existing(known)) => {
            assert_eq!(known.status, MeltQuoteState::Pending);
            assert_eq!(known.payment_proof, None);
        }
        _ => panic!("expected the existing payment"),
    }
}

fn stored_send(quote_id: &str, state: OnchainSendIntentState) -> OnchainSendIntentRecord {
    OnchainSendIntentRecord {
        quote_id: quote_id.to_string(),
        address: ADDRESS.to_string(),
        amount_sat: 100,
        state,
    }
}

#[test]
fn sends_are_reconciled() {
    let mut b = backend();
    let confirmed = "aa".repeat(32);
    let attempting = |started_at: u64| OnchainSendIntentState::Attempting {
        attempt: 1,
        attempt_id: "x".to_string(),
        fee_sat: 3,
        started_at,
    };
    let broadcast = |txid: &str| OnchainSendIntentState::Broadcast {
        txid: txid.to_string(),
        fee_sat: 4,
        broadcast_at: 1,
    };
    b.state_store.put_send("q1", &stored_send("q1", attempting(40)));
    b.state_store.put_send("q2", &stored_send("q2", attempting(41)));
    b.state_store.put_send("q3", &stored_send("q3", broadcast(&confirmed)));
    b.state_store.put_send("q4", &stored_send("q4", broadcast(&"bb".repeat(32))));
    assert!(b.reconcile_onchain_sends(&vec![confirmed.clone()], 100).is_ok());
    let state = |q: &str| b.state_store.get_send(q).unwrap().state;
    match state("q1") {
        OnchainSendIntentState::NeedsReview { reason, fee_sat, failed_at } => {
            assert_eq!((fee_sat, failed_at), (Some(3), 100));
            assert_eq!(reason, "Interrupted during Bark send_onchain; pending offboards are not exposed by the public Bark API for automatic recovery");
        }
        other => panic!("{:?}", other),
    }
    assert!(matches!(state("q2"), OnchainSendIntentState::Attempting { .. }));
    assert!(matches!(
        state("q3"),
        OnchainSendIntentState::Confirmed { fee_sat: 4, confirmed_at: 100, txid } if txid == confirmed
    ));
    assert!(matches!(state("q4"), OnchainSendIntentState::Broadcast { .. }));
    let parse = "zz".parse::<bitcoin::Txid>().unwrap_err();
    b.state_store.put_send("q5", &stored_send("q5", broadcast("zz")));
    assert_eq!(
        message(b.reconcile_onchain_sends(&Vec::new(), 100).unwrap_err()),
        format!("Invalid stored offboard txid zz: {}", parse)
    );
}

#[test]
fn send_is_reconciled_by_its_canonical_txid() {
    let send = stored_send(
        "q",
        OnchainSendIntentState::Broadcast { txid: "AA".to_string(), fee_sat: 1, broadcast_at: 1 },
    );
    let found = reconcile_send_with(&send, &Ok("aa".to_string()), &vec!["aa".to_string()], 5);
    assert!(matches!(
        found.ok().unwrap().unwrap().state,
        OnchainSendIntentState::Confirmed { txid, .. } if txid == "AA"
    ));
    assert!(reconcile_send_with(&send, &Ok("aa".to_string()), &Vec::new(), 5)
        .ok()
        .unwrap()
        .is_none());
}

#[test]
fn confirmed_send_is_told_once() {
    let mut b = backend();
    let confirmed = OnchainSendIntentState::Confirmed {
        txid: "tx".to_string(),
        fee_sat: 4,
        confirmed_at: 1,
    };
    b.state_store.put_send(QUOTE, &stored_send(QUOTE, confirmed.clone()));
    match b.next_onchain_send_event() {
        Ok(Some(PaymentEvent::PaymentSuccessful { quote_id, details })) => {
            assert_eq!(quote_id, QUOTE);
            assert_eq!(details.status, MeltQuoteState::Paid);
            assert_eq!(details.payment_proof, Some("tx".to_string()));
            assert_eq!(details.total_spent_sat, 104);
        }
        other => panic!("{:?}", other),
    }
    assert!(b.next_onchain_send_event().unwrap().is_none());
    b.state_store.put_send("bad id", &stored_send("bad id", confirmed));
    let parse = "bad id".parse::<cdk_common::QuoteId>().unwrap_err();
    assert_eq!(
        message(b.next_onchain_send_event().err().unwrap()),
        format!("Invalid stored quote id bad id: {}", parse)
    );
    assert!(!b.state_store.is_send_completed("bad id"));
}

#[test]
fn checking_a_confirmed_send_completes_it() {
    let mut b = backend();
    let confirmed = OnchainSendIntentState::Confirmed {
        txid: "tx".to_string(),
        fee_sat: u64::MAX,
        confirmed_at: 1,
    };
    b.state_store.put_send(QUOTE, &stored_send(QUOTE, confirmed));
    let response = b.check_onchain_send(QUOTE, false).unwrap();
    assert_eq!(response.total_spent_sat, u64::MAX);
    assert!(!b.state_store.is_send_completed(QUOTE));
    b.check_onchain_send(QUOTE, true);
    assert!(b.state_store.is_send_completed(QUOTE));
    assert!(b.check_onchain_send("other", true).is_none());
}

// ---- lightning ------------------------------------------------------------------------------

fn invoice(quote_id: &str, byte: u8, max_fee_sat: Option<u64>) -> LightningPaymentRequest {
    LightningPaymentRequest {
        quote_id: quote_id.to_string(),
        payment_hash: vec![byte; 32],
        invoice: format!("lnbc{}", byte),
        amount_msat: Some(5_000_999),
        max_fee_sat,
    }
}

fn fresh(b: &ArkBackend, quote_id: &str, byte: u8) -> FreshLightning {
    let accepted = AcceptedLightning::accept(invoice(quote_id, byte, None)).ok().unwrap();
    match accepted.start(b) {
        LightningStart::Fresh(fresh) => fresh,
        LightningStart::Existing { .. } => panic!("expected a fresh payment"),
    }
}

fn lightning_state(b: &ArkBackend, byte: u8) -> LightningSendIntentState {
    b.state_store.get_lightning_send(&hex::encode([byte; 32])).unwrap().state
}

#[test]
fn lightning_fee_is_a_thousandth_and_at_least_one() {
    assert_eq!(estimated_lightning_fee_sat(0), 1);
    assert_eq!(estimated_lightning_fee_sat(1_999), 1);
    assert_eq!(estimated_lightning_fee_sat(2_000), 2);
    assert_eq!(estimated_lightning_fee_sat(u64::MAX), u64::MAX / 1000);
    let quote = lightning_payment_quote(QUOTE, Some(5_000_999)).ok().unwrap();
    assert_eq!((quote.amount_sat, quote.fee_sat), (5_000, 5));
    assert!(quote.fee_option.is_none());
    assert_eq!(message(lightning_payment_quote(QUOTE, None).err().unwrap()), "Invoice has no amount");
}

#[test]
fn payment_hashes_are_thirty_two_bytes() {
    assert_eq!(parse_payment_hash_hex(&"AB".repeat(32)).ok(), Some(vec![0xab; 32]));
    assert_eq!(
        message(parse_payment_hash_hex("abcd").unwrap_err()),
        "Invalid stored payment hash length 2"
    );
    let bad = hex::decode("xy").unwrap_err();
    assert_eq!(
        message(parse_payment_hash_hex("xy").unwrap_err()),
        format!("Invalid stored payment hash xy: {}", bad)
    );
}

#[test]
fn lightning_payment_over_the_fee_limit_is_refused() {
    let e = AcceptedLightning::accept(invoice(QUOTE, 1, Some(4))).err().unwrap();
    assert_eq!(message(e), "Estimated lightning fee 5 sat exceeds max fee 4 sat");
    assert!(AcceptedLightning::accept(invoice(QUOTE, 1, Some(5))).is_ok());
    let mut no_amount = invoice(QUOTE, 1, None);
    no_amount.amount_msat = None;
    assert_eq!(
        message(AcceptedLightning::accept(no_amount).err().unwrap()),
        "Invoice has no amount"
    );
}

#[test]
fn lightning_payment_is_paid() {
    let mut b = backend();
    let attempt = fresh(&b, QUOTE, 1).begin_as(&mut b, "id".to_string(), 9);
    assert_eq!(attempt.invoice(), "lnbc1");
    assert!(matches!(
        lightning_state(&b, 1),
        LightningSendIntentState::Attempting { attempt: 1, started_at: 9, attempt_id }
            if attempt_id == "id"
    ));
    let status = Ok(LightningStatus::Paid { preimage: vec![0xcd; 32] });
    let response = attempt.paid(&mut b, &status, 10);
    assert_eq!(response.status, MeltQuoteState::Paid);
    assert_eq!(response.payment_proof, Some("cd".repeat(32)));
    assert_eq!(response.total_spent_sat, 5_005);
    assert!(matches!(response.payment_lookup_id, PaymentIdentifier::QuoteId(q) if q == QUOTE));
    assert!(matches!(
        lightning_state(&b, 1),
        LightningSendIntentState::Paid { fee_sat: 5, paid_at: 10, .. }
    ));
    // Neither the quote nor the invoice is paid again.
    for (quote, byte) in [(QUOTE, 2), ("other", 1)] {
        let accepted = AcceptedLightning::accept(invoice(quote, byte, None)).ok().unwrap();
        match accepted.start(&b) {
            LightningStart::Existing { payment_hash } => {
                assert_eq!(payment_hash, hex::encode([1; 32]));
            }
            LightningStart::Fresh(_) => panic!("expected the existing payment"),
        }
    }
}

#[test]
fn lightning_payment_goes_on_where_its_state_is_unknown() {
    let mut b = backend();
    let attempt = fresh(&b, QUOTE, 1).begin(&mut b, 9);
    match lightning_state(&b, 1) {
        LightningSendIntentState::Attempting { attempt_id, .. } => {
            assert_eq!(uuid::Uuid::parse_str(&attempt_id).unwrap().get_version_num(), 4);
        }
        other => panic!("{:?}", other),
    }
    let response = attempt.paid(&mut b, &Err("busy".to_string()), 10);
    assert_eq!(response.status, MeltQuoteState::Pending);
    assert!(matches!(lightning_state(&b, 1), LightningSendIntentState::Attempting { .. }));
}

#[test]
fn failed_lightning_payment_is_recovered_or_needs_review() {
    let mut b = backend();
    let attempt = fresh(&b, QUOTE, 1).begin(&mut b, 9);
    let status = Ok(LightningStatus::InProgress { amount_sat: 5_001, fee_sat: 7 });
    let e = attempt.pay_failed(&mut b, "route", &status, 10);
    assert_eq!(message(e), "Failed to pay invoice: route");
    let stored = b.state_store.get_lightning_send(&hex::encode([1; 32])).unwrap();
    assert_eq!(stored.amount_sat, 5_001);
    assert!(matches!(
        stored.state,
        LightningSendIntentState::Pending { fee_sat: 7, started_at: 10 }
    ));
    for (byte, status) in [(2, Ok(LightningStatus::Unknown)), (3, Err("gone".to_string()))] {
        let quote = format!("q{}", byte);
        let attempt = fresh(&b, &quote, byte).begin(&mut b, 9);
        attempt.pay_failed(&mut b, "route", &status, 11);
        match lightning_state(&b, byte) {
            LightningSendIntentState::NeedsReview { reason, failed_at } => {
                assert_eq!(failed_at, 11);
                assert_eq!(reason, "Bark pay_lightning_invoice returned an error after the payment attempt was started: route");
            }
            other => panic!("{:?}", other),
        }
    }
}

fn stored_payment(quote_id: &str, byte: u8, state: LightningSendIntentState) -> LightningSendIntentRecord {
    LightningSendIntentRecord {
        quote_id: quote_id.to_string(),
        payment_hash: hex::encode([byte; 32]),
        invoice: "lnbc".to_string(),
        amount_sat: 10,
        estimated_fee_sat: 2,
        state,
    }
}

#[test]
fn lightning_sends_are_reconciled() {
    let mut b = backend();
    let hash = hex::encode([1; 32]);
    assert!(b.reconcile_target(&hash).ok().unwrap().is_none());
    assert!(b.reconcile_lightning_send(&hash, &Ok(LightningStatus::Unknown), 50).is_none());
    let attempting = LightningSendIntentState::Attempting {
        attempt: 1,
        attempt_id: "x".to_string(),
        started_at: 40,
    };
    b.state_store.put_lightning_send(&hash, &stored_payment(QUOTE, 1, attempting));
    assert_eq!(b.reconcile_target(&hash).ok().unwrap(), Some(vec![1; 32]));
    // Not long enough ago to be given up.
    b.reconcile_lightning_send(&hash, &Err("no state".to_string()), 99);
    assert!(matches!(lightning_state(&b, 1), LightningSendIntentState::Attempting { .. }));
    b.reconcile_lightning_send(&hash, &Err("no state".to_string()), 100);
    match lightning_state(&b, 1) {
        LightningSendIntentState::NeedsReview { reason, failed_at } => {
            assert_eq!(failed_at, 100);
            assert_eq!(reason, "Interrupted during Bark pay_lightning_invoice and no recoverable send state was found: no state");
        }
        other => panic!("{:?}", other),
    }
    let paid = Ok(LightningStatus::Paid { preimage: vec![5; 32] });
    let updated = b.reconcile_lightning_send(&hash, &paid, 101).unwrap();
    assert!(matches!(
        updated.state,
        LightningSendIntentState::Paid { fee_sat: 2, paid_at: 101, preimage } if preimage == "05".repeat(32)
    ));
    b.state_store.put_lightning_send(
        "zz",
        &stored_payment("q", 9, LightningSendIntentState::Pending { fee_sat: 1, started_at: 1 }),
    );
    assert!(message(b.reconcile_target("zz").unwrap_err()).starts_with("Invalid stored payment hash zz: "));
    let kept = lightning_intent_from_bark_send(
        stored_payment("q", 9, LightningSendIntentState::Pending { fee_sat: 1, started_at: 1 }),
        &LightningStatus::Unknown,
        9,
    );
    assert!(matches!(kept.state, LightningSendIntentState::Pending { fee_sat: 1, started_at: 1 }));
}

#[test]
fn settled_lightning_payment_is_told_once() {
    let mut b = backend();
    let paid = LightningSendIntentState::Paid {
        fee_sat: 2,
        preimage: "pre".to_string(),
        paid_at: 1,
    };
    let failed = LightningSendIntentState::Failed {
        reason: "no route".to_string(),
        fee_sat: None,
        failed_at: 1,
    };
    let pending = LightningSendIntentState::Pending { fee_sat: 2, started_at: 1 };
    b.state_store.put_lightning_send(&hex::encode([1; 32]), &stored_payment(QUOTE, 1, pending));
    b.state_store.put_lightning_send(&hex::encode([2; 32]), &stored_payment(QUOTE, 2, paid));
    b.state_store.put_lightning_send(&hex::encode([3; 32]), &stored_payment(QUOTE, 3, failed.clone()));
    match b.next_lightning_send_event() {
        Ok(Some(PaymentEvent::PaymentSuccessful { quote_id, details })) => {
            assert_eq!(quote_id, QUOTE);
            assert_eq!(details.payment_proof, Some("pre".to_string()));
            assert_eq!(details.total_spent_sat, 12);
        }
        other => panic!("{:?}", other),
    }
    match b.next_lightning_send_event() {
        Ok(Some(PaymentEvent::PaymentFailed { quote_id, reason })) => {
            assert_eq!(quote_id, QUOTE);
            assert_eq!(reason, "no route");
        }
        other => panic!("{:?}", other),
    }
    assert!(b.next_lightning_send_event().unwrap().is_none());
    let failed = stored_payment(QUOTE, 3, failed);
    let response =
        b.lightning_send_response_with_lookup(&failed, true, PaymentIdentifier::Other);
    assert_eq!(response.status, MeltQuoteState::Unpaid);
    // A pending payment whose quote id cannot be read stops the search.
    b.state_store.put_lightning_send(
        &hex::encode([0; 32]),
        &stored_payment("bad id", 0, LightningSendIntentState::Pending { fee_sat: 2, started_at: 1 }),
    );
    let parse = "bad id".parse::<cdk_common::QuoteId>().unwrap_err();
    assert_eq!(
        message(b.next_lightning_send_event().err().unwrap()),
        format!("Invalid stored quote id bad id: {}", parse)
    );
}

#[test]
fn answering_for_a_paid_payment_completes_it_on_demand() {
    let mut b = backend();
    let paid = stored_payment(
        QUOTE,
        2,
        LightningSendIntentState::Paid { fee_sat: 2, preimage: "pre".to_string(), paid_at: 1 },
    );
    let response = b.lightning_send_response_with_lookup(
        &paid,
        false,
        PaymentIdentifier::QuoteId(QUOTE.to_string()),
    );
    assert_eq!(response.status, MeltQuoteState::Paid);
    assert!(!b.state_store.is_lightning_send_completed(&paid.payment_hash));
    b.lightning_send_response_with_lookup(&paid, true, PaymentIdentifier::Other);
    assert!(b.state_store.is_lightning_send_completed(&paid.payment_hash));
}
