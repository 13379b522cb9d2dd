use ark_onramp::ark_backend::ArkBackend;
use ark_onramp::ark_store::ArkStateStore;
use ark_onramp::intents::{
    LightningSendIntentRecord, LightningSendIntentState, OnchainSendIntentRecord,
    OnchainSendIntentState,
};
use ark_onramp::lightning_sends::LightningPaymentRequest;
use ark_onramp::onchain_payment::OnchainPaymentRequest;
use ark_onramp::payjoin_receiver::SessionFailure;
use ark_onramp::payjoin_state::OnRampStateStore;
use ark_onramp::payment::{MeltQuoteState, PaymentError, PaymentEvent, PaymentIdentifier};
use ark_onramp::requests::{
    create_incoming_payment_request, make_payment, next_source, DeriveFailure, DerivedBoard,
    EventSource, IncomingCheck, IncomingPaymentOptions, IncomingPlan, LightningReceive, NewInvoice,
    OutgoingCheck, OutgoingPaymentOptions, PaymentPlan, QuotePlan,
};
use ark_onramp::settings::BackendConfig;
use ark_onramp::telemetry::OnRampStage;

const QUOTE: &str = "0b5a3c1e-7d24-4b8e-9f1a-3c2d1e0f9a8b";

fn backend() -> ArkBackend {
    ArkBackend::new(
        &BackendConfig::default(),
        ArkStateStore::open(Vec::new()),
        OnRampStateStore::open(Vec::new()),
        Some(vec![1]),
        12_345,
    )
}

fn message(e: PaymentError) -> String {
    match e {
        PaymentError::Custom(m) => m,
        PaymentError::UnsupportedUnit => "unit".to_string(),
        PaymentError::UnsupportedPaymentOption => "option".to_string(),
    }
}

fn board(byte: u8) -> DerivedBoard {
    DerivedBoard {
        keypair_index: 8,
        expiry_height: 900,
        script: vec![0x51, 0x20, byte],
        address: "board address".to_string(),
    }
}

#[test]
fn settings_advertise_the_least_board() {
    let settings = backend().get_settings();
    assert_eq!(settings.unit, "sat");
    assert_eq!(
        (settings.bolt11_mpp, settings.bolt11_amountless, settings.bolt11_invoice_description),
        (false, false, true)
    );
    assert_eq!(settings.onchain_confirmations, 1);
    assert_eq!(settings.onchain_min_receive_amount_sat, 12_345);
    assert_eq!(settings.onchain_min_send_amount_sat, 1);
}

#[test]
fn incoming_requests_are_sorted_out() {
    let bolt11 = |unit: &str| IncomingPaymentOptions::Bolt11 {
        unit: unit.to_string(),
        amount_sat: 5,
        description: Some("tea".to_string()),
    };
    match create_incoming_payment_request(bolt11("sat")) {
        Ok(IncomingPlan::Invoice { amount_sat, description }) => {
            assert_eq!((amount_sat, description), (5, Some("tea".to_string())));
        }
        _ => panic!("expected an invoice"),
    }
    assert_eq!(message(create_incoming_payment_request(bolt11("msat")).err().unwrap()), "unit");
    assert!(matches!(
        create_incoming_payment_request(IncomingPaymentOptions::Onchain { quote_id: QUOTE.to_string() }),
        Ok(IncomingPlan::Board { quote_id }) if quote_id == QUOTE
    ));
    let other = create_incoming_payment_request(IncomingPaymentOptions::Other);
    assert_eq!(message(other.err().unwrap()), "option");
}

#[test]
fn board_is_handed_out() {
    let mut b = backend();
    let advertised = b.advertise_board(QUOTE, Ok(board(1))).ok().unwrap();
    assert!(b.payjoin.state.is_script_advertised("512001"));
    let uri = Ok("bitcoin:X?pjos=0&pj=Y".to_string());
    let (response, event) = advertised.session_created(&mut b, &uri).ok().unwrap();
    assert!(matches!(&response.request_lookup_id, PaymentIdentifier::QuoteId(q) if q == QUOTE));
    assert_eq!(response.request, "bitcoin:X?pj=Y");
    assert_eq!(response.expiry, None);
    assert_eq!(
        response.extra().unwrap(),
        vec![
            ("fee_policy".to_string(), "bark_board_fee_deducted_from_received_amount".to_string()),
            ("onramp".to_string(), "payjoin_board".to_string()),
            ("board_address".to_string(), "board address".to_string()),
        ]
    );
    assert_eq!(event.stage, OnRampStage::QuoteCreated);
    assert_eq!(event.data.board_address, Some("board address".to_string()));
    let record = b.payjoin.state.get_quote(QUOTE).unwrap();
    assert_eq!((record.keypair_index, record.expiry_height), (8, 900));
    assert_eq!(record.board_script_hex, "512001");
    assert_eq!(record.bip21_uri, "bitcoin:X?pj=Y");
    assert_eq!(
        b.state_store.receive_addresses().get(QUOTE),
        Some(&"board address".to_string())
    );
    // The same script is not handed out again, for any quote.
    assert_eq!(
        message(b.advertise_board("other", Ok(board(1))).err().unwrap()),
        "no-address-reuse guard rejected board script for quote other: no-address-reuse violation: script 512001 was already advertised"
    );
}

#[test]
fn board_that_cannot_be_made_is_refused() {
    let mut b = backend();
    let keypair = Err(DeriveFailure::Keypair("locked".to_string()));
    assert_eq!(
        message(b.advertise_board(QUOTE, keypair).err().unwrap()),
        "Failed to derive board keypair: locked"
    );
    let address = Err(DeriveFailure::Address("offline".to_string()));
    assert_eq!(
        message(b.advertise_board(QUOTE, address).err().unwrap()),
        "Failed to derive board funding address: offline"
    );
    let advertised = b.advertise_board(QUOTE, Ok(board(1))).ok().unwrap();
    let failure = Err(SessionFailure::Build("bad url".to_string()));
    assert_eq!(
        message(advertised.session_created(&mut b, &failure).err().unwrap()),
        "Failed to create payjoin session: failed to build payjoin receiver: bad url"
    );
    assert!(b.payjoin.state.get_quote(QUOTE).is_none());
    assert!(!b.state_store.receive_addresses().contains(QUOTE));
}

#[test]
fn invoice_is_handed_out() {
    let mut b = backend();
    let invoice = || NewInvoice {
        payment_hash: vec![0xab; 32],
        expiry_secs: 3600,
        text: "lnbc1".to_string(),
    };
    let response = b.invoice_created_as(Ok(invoice()), "q1".to_string()).ok().unwrap();
    assert_eq!(response.request, "lnbc1");
    assert_eq!(response.expiry, Some(3600));
    assert!(response.extra().is_none());
    assert_eq!(b.state_store.get_lightning_receive_hash("q1"), Some("ab".repeat(32)));
    let mut ids = Vec::new();
    for _ in 0..2 {
        match b.invoice_created(Ok(invoice())).ok().unwrap().request_lookup_id {
            PaymentIdentifier::QuoteId(id) => {
                assert!(id.parse::<cdk_common::QuoteId>().is_ok());
                assert_eq!(id.parse::<cdk_common::QuoteId>().unwrap().to_string(), id);
                assert!(uuid::Uuid::parse_str(&id).is_ok());
                ids.push(id);
            }
            other => panic!("{:?}", other),
        }
    }
    assert_ne!(ids[0], ids[1]);
    assert_eq!(
        message(b.invoice_created(Err("limit".to_string())).err().unwrap()),
        "Failed to create invoice: limit"
    );
}

fn lightning_request() -> LightningPaymentRequest {
    LightningPaymentRequest {
        quote_id: QUOTE.to_string(),
        payment_hash: vec![1; 32],
        invoice: "lnbc".to_string(),
        amount_msat: Some(7_000_000),
        max_fee_sat: None,
    }
}

fn onchain_request(address: &str) -> OnchainPaymentRequest {
    OnchainPaymentRequest {
        quote_id: QUOTE.to_string(),
        address: address.to_string(),
        amount_sat: 9,
        max_fee_sat: None,
        fee_index: None,
    }
}

#[test]
fn payment_quotes_are_sorted_out() {
    let b = backend();
    match b.get_payment_quote("sat", OutgoingPaymentOptions::Bolt11(lightning_request())) {
        Ok(QuotePlan::Ready(quote)) => {
            assert_eq!((quote.amount_sat, quote.fee_sat), (7_000, 7));
            assert_eq!(quote.state, MeltQuoteState::Unpaid);
        }
        _ => panic!("expected a quote"),
    }
    let address = "tb1qw508d6qejxtdg4y5r3zarvary0c5xw7kxpjzsx";
    match b.get_payment_quote("sat", OutgoingPaymentOptions::Onchain(onchain_request(address))) {
        Ok(QuotePlan::Estimate { request, address: parsed }) => {
            assert_eq!(request.amount_sat, 9);
            assert_eq!(parsed, address);
        }
        _ => panic!("expected an estimate"),
    }
    let bad = b.get_payment_quote("sat", OutgoingPaymentOptions::Onchain(onchain_request("x")));
    assert!(message(bad.err().unwrap()).starts_with("Invalid address: "));
    let unit = b.get_payment_quote("usd", OutgoingPaymentOptions::Other);
    assert_eq!(message(unit.err().unwrap()), "unit");
    let other = b.get_payment_quote("sat", OutgoingPaymentOptions::Other);
    assert_eq!(message(other.err().unwrap()), "option");
}

#[test]
fn payments_are_sorted_out() {
    assert!(matches!(
        make_payment("sat", OutgoingPaymentOptions::Bolt11(lightning_request())),
        Ok(PaymentPlan::Lightning(_))
    ));
    assert!(matches!(
        make_payment("sat", OutgoingPaymentOptions::Onchain(onchain_request("x"))),
        Ok(PaymentPlan::Onchain(_))
    ));
    let mut other_fee = onchain_request("x");
    other_fee.fee_index = Some(4);
    assert_eq!(
        message(make_payment("sat", OutgoingPaymentOptions::Onchain(other_fee)).err().unwrap()),
        "Unsupported onchain fee_index Some(4)"
    );
    assert_eq!(message(make_payment("eur", OutgoingPaymentOptions::Other).err().unwrap()), "unit");
    assert_eq!(message(make_payment("sat", OutgoingPaymentOptions::Other).err().unwrap()), "option");
}

#[test]
fn lightning_receive_is_told_once() {
    let mut b = backend();
    let finished = |byte: u8, amount_msat: Option<u64>| LightningReceive {
        payment_hash: vec![byte; 32],
        finished: true,
        amount_msat,
    };
    let receives = vec![
        LightningReceive { payment_hash: vec![9; 32], finished: false, amount_msat: Some(1_000) },
        finished(1, Some(5_999)),
        finished(2, None),
        finished(3, Some(1_000)),
    ];
    b.state_store.put_lightning_receive_quote(QUOTE, &"01".repeat(32));
    b.state_store.put_lightning_receive_quote("bad id", &"03".repeat(32));
    match b.next_lightning_receive_event(&receives) {
        Some(PaymentEvent::PaymentReceived(r)) => {
            assert!(matches!(r.payment_identifier, PaymentIdentifier::QuoteId(q) if q == QUOTE));
            assert_eq!(r.amount_sat, 5);
            assert_eq!(r.payment_id, "01".repeat(32));
        }
        other => panic!("{:?}", other),
    }
    assert!(b.state_store.is_lightning_receive_reported(QUOTE));
    // Without a quote, or with one that cannot be read, the payment hash identifies the receive.
    for byte in [2u8, 3] {
        match b.next_lightning_receive_event(&receives) {
            Some(PaymentEvent::PaymentReceived(r)) => {
                assert!(matches!(
                    r.payment_identifier,
                    PaymentIdentifier::PaymentHash(h) if h == vec![byte; 32]
                ));
                assert_eq!(r.amount_sat, if byte == 2 { 0 } else { 1 });
            }
            other => panic!("{:?}", other),
        }
    }
    assert!(b.next_lightning_receive_event(&receives).is_none());
}

#[test]
fn stream_tells_nothing_twice() {
    let mut b = backend();
    let invoice = |byte: u8| NewInvoice {
        payment_hash: vec![byte; 32],
        expiry_secs: 60,
        text: "lnbc1".to_string(),
    };
    let receive = |byte: u8| LightningReceive {
        payment_hash: vec![byte; 32],
        finished: true,
        amount_msat: Some(1_000),
    };
    let mut ids = Vec::new();
    for byte in [1u8, 2] {
        match b.invoice_created(Ok(invoice(byte))).ok().unwrap().request_lookup_id {
            PaymentIdentifier::QuoteId(id) => ids.push(id),
            other => panic!("{:?}", other),
        }
    }
    // A check tells of the first receive, and the stream of the second alone.
    let first = PaymentIdentifier::QuoteId(ids[0].clone());
    assert_eq!(b.check_lightning_receive(first, &Ok(Some(receive(1))), true).ok().unwrap().len(), 1);
    let receives = vec![receive(1), receive(2)];
    match b.next_lightning_receive_event(&receives) {
        Some(PaymentEvent::PaymentReceived(r)) => {
            assert!(matches!(r.payment_identifier, PaymentIdentifier::QuoteId(q) if q == ids[1]));
        }
        other => panic!("{:?}", other),
    }
    assert!(b.next_lightning_receive_event(&receives).is_none());
    b.wait_payment_event();
    assert!(b.first_source().is_some());
    b.cancel_payment_event_stream();
    assert!(b.first_source().is_none());
}

#[test]
fn lightning_receive_is_checked() {
    let mut b = backend();
    let id = || PaymentIdentifier::QuoteId(QUOTE.to_string());
    assert_eq!(
        message(b.check_lightning_receive(id(), &Err("db".to_string()), true).err().unwrap()),
        "Failed to check receive status: db"
    );
    assert_eq!(b.check_lightning_receive(id(), &Ok(None), true).ok().unwrap().len(), 0);
    let receive = |finished: bool| {
        Ok(Some(LightningReceive {
            payment_hash: vec![0xef; 32],
            finished,
            amount_msat: Some(2_500),
        }))
    };
    assert_eq!(b.check_lightning_receive(id(), &receive(false), true).ok().unwrap().len(), 0);
    assert!(!b.state_store.is_lightning_receive_reported(QUOTE));
    let told = b.check_lightning_receive(id(), &receive(true), true).ok().unwrap();
    assert_eq!((told[0].amount_sat, told[0].payment_id.as_str()), (2, "ef".repeat(32).as_str()));
    assert!(b.state_store.is_lightning_receive_reported(QUOTE));
}

#[test]
fn incoming_status_is_looked_up() {
    let mut b = backend();
    b.state_store.put_lightning_receive_quote("q1", &"01".repeat(32));
    b.state_store.put_lightning_receive_quote("q2", "0101");
    let by_quote = |q: &str| PaymentIdentifier::QuoteId(q.to_string());
    assert!(matches!(
        b.check_incoming_payment_status(&by_quote("q1")),
        Ok(IncomingCheck::Lightning { payment_hash }) if payment_hash == vec![1; 32]
    ));
    assert_eq!(
        message(b.check_incoming_payment_status(&by_quote("q2")).err().unwrap()),
        "Invalid stored payment hash length 2"
    );
    assert!(matches!(
        b.check_incoming_payment_status(&by_quote("q3")),
        Ok(IncomingCheck::Onchain { quote_id }) if quote_id == "q3"
    ));
    assert!(matches!(
        b.check_incoming_payment_status(&PaymentIdentifier::PaymentHash(vec![2; 32])),
        Ok(IncomingCheck::Lightning { payment_hash }) if payment_hash == vec![2; 32]
    ));
    assert_eq!(
        message(b.check_incoming_payment_status(&PaymentIdentifier::Other).err().unwrap()),
        "Unsupported payment identifier type"
    );
}

#[test]
fn outgoing_status_is_looked_up() {
    let mut b = backend();
    b.state_store.put_send(
        "q1",
        &OnchainSendIntentRecord {
            quote_id: "q1".to_string(),
            address: "a".to_string(),
            amount_sat: 10,
            state: OnchainSendIntentState::Confirmed {
                txid: "tx".to_string(),
                fee_sat: 1,
                confirmed_at: 1,
            },
        },
    );
    b.state_store.put_lightning_send(
        "hash",
        &LightningSendIntentRecord {
            quote_id: "q2".to_string(),
            payment_hash: "hash".to_string(),
            invoice: "lnbc".to_string(),
            amount_sat: 1,
            estimated_fee_sat: 1,
            state: LightningSendIntentState::Pending { fee_sat: 1, started_at: 1 },
        },
    );
    let by_quote = |q: &str| PaymentIdentifier::QuoteId(q.to_string());
    match b.check_outgoing_payment(&by_quote("q1")) {
        Ok(OutgoingCheck::Known(response)) => {
            assert_eq!(response.status, MeltQuoteState::Paid);
            assert_eq!(response.total_spent_sat, 11);
        }
        _ => panic!("expected a known payment"),
    }
    assert!(b.state_store.is_send_completed("q1"));
    assert!(matches!(
        b.check_outgoing_payment(&by_quote("q2")),
        Ok(OutgoingCheck::Lightning { payment_hash }) if payment_hash == "hash"
    ));
    assert_eq!(
        message(b.check_outgoing_payment(&by_quote("q3")).err().unwrap()),
        "No outgoing payment found for quote q3"
    );
    assert_eq!(
        message(b.check_outgoing_payment(&PaymentIdentifier::Other).err().unwrap()),
        "Outgoing payment status must be checked by quote id"
    );
}

#[test]
fn event_stream_asks_each_source_in_turn() {
    let mut b = backend();
    assert!(!b.is_payment_event_stream_active());
    assert_eq!(b.first_source(), None);
    b.wait_payment_event();
    assert!(b.is_payment_event_stream_active());
    assert_eq!(b.first_source(), Some(EventSource::LightningReceives));
    let mut order = vec![EventSource::LightningReceives];
    while let Some(next) = next_source(order[order.len() - 1], false) {
        order.push(next);
    }
    assert_eq!(
        order,
        vec![
            EventSource::LightningReceives, EventSource::OnchainReceives,
            EventSource::LightningSends, EventSource::OnchainSends,
        ]
    );
    assert_eq!(next_source(EventSource::OnchainReceives, true), None);
    b.cancel_payment_event_stream();
    assert!(!b.is_payment_event_stream_active());
    assert_eq!(b.first_source(), None);
}

#[test]
fn identifiers_have_a_text() {
    assert_eq!(PaymentIdentifier::QuoteId("q".to_string()).text(), "q");
    assert_eq!(PaymentIdentifier::PaymentHash(vec![0x0f; 32]).text(), "0f".repeat(32));
}
