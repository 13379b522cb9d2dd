use ark_onramp::ark_backend::ArkBackend;
use ark_onramp::ark_store::ArkStateStore;
use ark_onramp::board_pass::WalletSnapshot;
use ark_onramp::intents::{OnchainReceiveIntentRecord, OnchainReceiveIntentState};
use ark_onramp::payjoin_receiver::{BoardResult, PendingBoard};
use ark_onramp::payjoin_state::{OnRampQuoteRecord, OnRampStateStore};
use ark_onramp::payment::{PaymentError, PaymentEvent, PaymentIdentifier};
use ark_onramp::receives::{
    boarding_intent_from_pending, pending_board_spending_outpoint, WalletOutput,
};
use ark_onramp::settings::BackendConfig;
use ark_onramp::telemetry::OnRampStage;

const QUOTE: &str = "0b5a3c1e-7d24-4b8e-9f1a-3c2d1e0f9a8b";

fn backend() -> ArkBackend {
    let config = BackendConfig { network: "regtest".to_string(), ..BackendConfig::default() };
    ArkBackend::new(
        &config,
        ArkStateStore::open(Vec::new()),
        OnRampStateStore::open(Vec::new()),
        None,
        10_000,
    )
}

fn txid(byte: &str) -> String {
    byte.repeat(32)
}

fn outpoint(byte: &str, vout: u32) -> String {
    format!("{}:{}", txid(byte), vout)
}

fn script() -> Vec<u8> {
    let mut script = vec![0x00, 0x14];
    script.extend_from_slice(&[0x75; 20]);
    script
}

fn address() -> String {
    bitcoin::Address::from_script(
        bitcoin::Script::from_bytes(&script()),
        bitcoin::Network::Regtest,
    )
    .unwrap()
    .to_string()
}

fn output(byte: &str, height: Option<u32>) -> WalletOutput {
    WalletOutput { outpoint: outpoint(byte, 0), script: script(), value_sat: 50_000, height }
}

fn board(byte: &str, spends: &str, amount_sat: u64) -> PendingBoard {
    PendingBoard {
        funding_txid: txid(byte),
        board_vout: 2,
        funding_inputs: vec![outpoint("0f", 1), spends.to_string()],
        amount_sat,
        vtxo_ids: vec![outpoint(byte, 0)],
    }
}

fn state_of(backend: &ArkBackend, outpoint: &str) -> OnchainReceiveIntentState {
    backend.state_store.get_receive_intent(outpoint).unwrap().state
}

fn message(e: PaymentError) -> String {
    match e {
        PaymentError::Custom(m) => m,
        PaymentError::UnsupportedUnit => "unit".to_string(),
        PaymentError::UnsupportedPaymentOption => "option".to_string(),
    }
}

fn onramp_quote(quote_id: &str) -> OnRampQuoteRecord {
    OnRampQuoteRecord {
        quote_id: quote_id.to_string(),
        keypair_index: 1,
        expiry_height: 200,
        board_script_hex: "5120".to_string(),
        board_address: "a".to_string(),
        bip21_uri: "u".to_string(),
    }
}

#[test]
fn deposit_is_detected_once_it_is_confirmed() {
    let mut b = backend();
    // Without an advertised address nothing is looked at.
    assert!(b.detect_confirmed_receive_deposits(&vec![output("aa", Some(1))], 5, 7).is_ok());
    assert_eq!(b.state_store.receive_intents().len(), 0);
    b.state_store.put_receive_address(QUOTE, &address());
    let outputs = vec![
        output("aa", Some(100)),
        output("bb", None),
        output("cc", Some(102)),
        output("dd", Some(0)),
        WalletOutput {
            outpoint: outpoint("ee", 0),
            script: vec![0x6a],
            value_sat: 1,
            height: Some(1),
        },
    ];
    assert!(b.detect_confirmed_receive_deposits(&outputs, 100, 7).is_ok());
    let found: Vec<String> =
        b.state_store.receive_intents().into_iter().map(|i| i.deposit_outpoint).collect();
    assert_eq!(found, vec![outpoint("aa", 0), outpoint("dd", 0)]);
    let intent = b.state_store.get_receive_intent(&outpoint("aa", 0)).unwrap();
    assert_eq!(intent.quote_id, QUOTE);
    assert_eq!(intent.gross_sat, 50_000);
    assert!(matches!(intent.state, OnchainReceiveIntentState::Detected { detected_at: 7 }));
    // A known deposit is left as it is.
    assert!(b.detect_confirmed_receive_deposits(&outputs, 101, 9).is_ok());
    assert!(matches!(
        state_of(&b, &outpoint("aa", 0)),
        OnchainReceiveIntentState::Detected { detected_at: 7 }
    ));
    // The height of the tip itself counts as one confirmation.
    assert!(matches!(
        state_of(&b, &outpoint("dd", 0)),
        OnchainReceiveIntentState::Detected { .. }
    ));
    assert!(b.state_store.get_receive_intent(&outpoint("cc", 0)).is_none());
}

#[test]
fn stored_quote_id_must_parse() {
    let mut b = backend();
    b.state_store.put_receive_address("not a quote", &address());
    let e = b.detect_confirmed_receive_deposits(&vec![output("aa", Some(1))], 5, 7).unwrap_err();
    let parse = "not a quote".parse::<cdk_common::QuoteId>().unwrap_err();
    assert_eq!(message(e), format!("Invalid stored quote id not a quote: {}", parse));
    assert_eq!(b.state_store.receive_intents().len(), 0);
}

#[test]
fn board_is_started_and_finalized() {
    let mut b = backend();
    b.state_store.put_receive_address(QUOTE, &address());
    b.payjoin.state.put_quote(&onramp_quote(QUOTE));
    let deposit = outpoint("aa", 0);
    assert!(b.detect_confirmed_receive_deposits(&vec![output("aa", Some(1))], 5, 7).is_ok());
    let mut ready = b.ready_receives(8);
    assert_eq!(ready.len(), 1);
    let attempt =
        b.begin_board_as(ready.remove(0), Ok(deposit.clone()), "attempt".to_string(), 8).ok().unwrap();
    assert_eq!(attempt.outpoint(), &deposit);
    assert!(matches!(
        state_of(&b, &deposit),
        OnchainReceiveIntentState::BoardPreparing { attempt: 1, started_at: 8, attempt_id }
            if attempt_id == "attempt"
    ));
    assert_eq!(b.ready_receives(1000).len(), 0);
    attempt.succeeded(&mut b, &board("b0", &deposit, 49_500));
    match state_of(&b, &deposit) {
        OnchainReceiveIntentState::Boarding {
            attempt, board_txid, board_vout, board_vtxo_ids, fee_sat, amount_sat, started_at,
        } => {
            assert_eq!(board_vout, 2);
            assert_eq!((attempt, fee_sat, amount_sat, started_at), (1, 500, 49_500, 8));
            assert_eq!(board_txid, txid("b0"));
            assert_eq!(board_vtxo_ids, vec![outpoint("b0", 0)]);
        }
        other => panic!("{:?}", other),
    }
    // The board is not spendable yet.
    assert_eq!(b.finalize_spendable_receive_boards(&Vec::new(), 9).len(), 0);
    assert!(matches!(state_of(&b, &deposit), OnchainReceiveIntentState::Boarding { .. }));
    let events = b.finalize_spendable_receive_boards(&vec![outpoint("b0", 0)], 9);
    assert_eq!(events.len(), 1);
    assert_eq!(events[0].stage, OnRampStage::BoardConfirmed);
    assert_eq!(events[0].quote_id, QUOTE);
    assert_eq!(events[0].data.vtxo_amount_sat, Some(49_500));
    assert_eq!(events[0].data.board_txid, Some(txid("b0")));
    assert_eq!(events[0].data.vtxo_ids, vec![outpoint("b0", 0)]);
    assert!(matches!(
        state_of(&b, &deposit),
        OnchainReceiveIntentState::Finalized {
            fee_sat: 500, amount_sat: 49_500, finalized_at: 9, ..
        }
    ));
    // A settled deposit stays.
    assert_eq!(b.finalize_spendable_receive_boards(&vec![outpoint("b0", 0)], 10).len(), 0);
    assert!(b.recover_preparing_receive_boards(&Ok(Vec::new()), &Vec::new(), 10).is_ok());
    assert!(matches!(
        state_of(&b, &deposit),
        OnchainReceiveIntentState::Finalized { finalized_at: 9, .. }
    ));
}

#[test]
fn unreadable_vtxo_id_holds_a_board_back() {
    let mut b = backend();
    b.record_payjoin_boarding_intent(
        QUOTE, "d:0", "tx", 0, 100, 90, &vec!["no vtxo".to_string()], 3,
    );
    assert_eq!(b.finalize_spendable_receive_boards(&vec!["no vtxo".to_string()], 9).len(), 0);
    assert!(matches!(state_of(&b, "d:0"), OnchainReceiveIntentState::Boarding { .. }));
    // One without any VTXO is spendable as it is, and this one is no on-ramp quote.
    b.record_payjoin_boarding_intent(QUOTE, "e:0", "tx", 0, 100, 90, &Vec::new(), 3);
    assert_eq!(b.finalize_spendable_receive_boards(&Vec::new(), 9).len(), 0);
    assert!(matches!(state_of(&b, "e:0"), OnchainReceiveIntentState::Finalized { .. }));
}

fn failing_attempt(b: &mut ArkBackend) -> String {
    b.state_store.put_receive_address(QUOTE, &address());
    assert!(b.detect_confirmed_receive_deposits(&vec![output("aa", Some(1))], 5, 7).is_ok());
    outpoint("aa", 0)
}

#[test]
fn failed_board_is_retried_later_only_while_the_deposit_is_unspent() {
    let mut b = backend();
    let deposit = failing_attempt(&mut b);
    let ready = b.ready_receives(8).remove(0);
    let attempt = b.begin_board_as(ready, Ok(deposit.clone()), "x".to_string(), 8).ok().unwrap();
    assert!(attempt
        .failed(&mut b, "no server", &Ok(Vec::new()), &vec![deposit.clone()], 20)
        .is_ok());
    match state_of(&b, &deposit) {
        OnchainReceiveIntentState::RetryableFailed { attempt, reason, failed_at, retry_after } => {
            assert_eq!((attempt, failed_at, retry_after), (1, 20, 50));
            assert_eq!(reason, "no server");
        }
        other => panic!("{:?}", other),
    }
    assert_eq!(b.ready_receives(49).len(), 0);
    let ready = b.ready_receives(50).remove(0);
    let attempt = b.begin_board_as(ready, Ok(deposit.clone()), "y".to_string(), 50).ok().unwrap();
    assert!(matches!(
        state_of(&b, &deposit),
        OnchainReceiveIntentState::BoardPreparing { attempt: 2, .. }
    ));
    assert!(attempt.failed(&mut b, "again", &Ok(Vec::new()), &Vec::new(), 60).is_ok());
    match state_of(&b, &deposit) {
        OnchainReceiveIntentState::NeedsReview { reason, failed_at } => {
            assert_eq!(failed_at, 60);
            assert_eq!(
                reason,
                "Board attempt failed after target outpoint stopped being spendable: again"
            );
        }
        other => panic!("{:?}", other),
    }
    assert_eq!(b.ready_receives(10_000).len(), 0);
}

#[test]
fn failed_board_that_is_pending_after_all_goes_on() {
    let mut b = backend();
    let deposit = failing_attempt(&mut b);
    let ready = b.ready_receives(8).remove(0);
    let attempt = b.begin_board_as(ready, Ok(deposit.clone()), "x".to_string(), 8).ok().unwrap();
    let boards = Ok(vec![board("b1", "other:0", 1), board("b0", &deposit, 60_000)]);
    assert!(attempt.failed(&mut b, "late", &boards, &vec![deposit.clone()], 20).is_ok());
    // A board worth more than the deposit leaves no fee.
    assert!(matches!(
        state_of(&b, &deposit),
        OnchainReceiveIntentState::Boarding { fee_sat: 0, amount_sat: 60_000, started_at: 8, .. }
    ));
}

#[test]
fn unlisted_boards_leave_the_attempt_on_record() {
    let mut b = backend();
    let deposit = failing_attempt(&mut b);
    let ready = b.ready_receives(8).remove(0);
    let attempt = b.begin_board_as(ready, Ok(deposit.clone()), "x".to_string(), 8).ok().unwrap();
    let e = attempt
        .failed(&mut b, "late", &Err("locked".to_string()), &Vec::new(), 20)
        .unwrap_err();
    assert_eq!(message(e), "Failed to list pending boards: locked");
    assert!(matches!(state_of(&b, &deposit), OnchainReceiveIntentState::BoardPreparing { .. }));
}

#[test]
fn interrupted_boards_are_recovered() {
    let mut b = backend();
    let mut intents = Vec::new();
    for byte in ["aa", "bb", "cc"] {
        intents.push(OnchainReceiveIntentRecord {
            quote_id: QUOTE.to_string(),
            deposit_outpoint: outpoint(byte, 0),
            gross_sat: 1000,
            state: OnchainReceiveIntentState::BoardPreparing {
                attempt: 3,
                attempt_id: "x".to_string(),
                started_at: 4,
            },
        });
    }
    for intent in &intents {
        b.state_store.put_receive_intent(intent);
    }
    let boards = Ok(vec![board("b0", &outpoint("aa", 0), 900)]);
    assert!(b.recover_preparing_receive_boards(&boards, &vec![outpoint("bb", 0)], 30).is_ok());
    assert!(matches!(
        state_of(&b, &outpoint("aa", 0)),
        OnchainReceiveIntentState::Boarding {
            attempt: 3, fee_sat: 100, amount_sat: 900, started_at: 4, ..
        }
    ));
    match state_of(&b, &outpoint("bb", 0)) {
        OnchainReceiveIntentState::RetryableFailed { attempt, reason, failed_at, retry_after } => {
            assert_eq!((attempt, failed_at, retry_after), (3, 30, 30));
            assert_eq!(reason, "Interrupted before board was committed");
        }
        other => panic!("{:?}", other),
    }
    match state_of(&b, &outpoint("cc", 0)) {
        OnchainReceiveIntentState::NeedsReview { reason, failed_at } => {
            assert_eq!(failed_at, 30);
            assert_eq!(
                reason,
                "Interrupted board attempt spent the target outpoint but no Bark pending board was found"
            );
        }
        other => panic!("{:?}", other),
    }
}

#[test]
fn stored_outpoint_must_parse() {
    let mut b = backend();
    b.state_store.put_receive_intent(&OnchainReceiveIntentRecord {
        quote_id: QUOTE.to_string(),
        deposit_outpoint: "bad".to_string(),
        gross_sat: 1,
        state: OnchainReceiveIntentState::Detected { detected_at: 1 },
    });
    let parse = "bad".parse::<bitcoin::OutPoint>().unwrap_err();
    let expected = format!("Invalid stored deposit outpoint bad: {}", parse);
    let ready = b.ready_receives(8).remove(0);
    assert_eq!(message(b.begin_board(ready, 8).err().unwrap()), expected);
    assert!(matches!(state_of(&b, "bad"), OnchainReceiveIntentState::Detected { .. }));
    b.state_store.put_receive_intent(&OnchainReceiveIntentRecord {
        quote_id: QUOTE.to_string(),
        deposit_outpoint: "bad".to_string(),
        gross_sat: 1,
        state: OnchainReceiveIntentState::BoardPreparing {
            attempt: 1,
            attempt_id: "x".to_string(),
            started_at: 1,
        },
    });
    let e = b.recover_preparing_receive_boards(&Ok(Vec::new()), &Vec::new(), 9).unwrap_err();
    assert_eq!(message(e), expected);
}

#[test]
fn each_attempt_gets_an_id_of_its_own() {
    let mut b = backend();
    let deposit = failing_attempt(&mut b);
    let mut ids = Vec::new();
    for now in [100, 200] {
        let ready = b.ready_receives(now).remove(0);
        let attempt = b.begin_board(ready, now).ok().unwrap();
        match state_of(&b, &deposit) {
            OnchainReceiveIntentState::BoardPreparing { attempt_id, .. } => {
                assert_eq!(uuid::Uuid::parse_str(&attempt_id).unwrap().get_version_num(), 4);
                ids.push(attempt_id);
            }
            other => panic!("{:?}", other),
        }
        assert!(attempt
            .failed(&mut b, "no", &Ok(Vec::new()), &vec![deposit.clone()], now)
            .is_ok());
    }
    assert_ne!(ids[0], ids[1]);
}

#[test]
fn pending_board_is_found_by_what_it_spends() {
    let boards = vec![board("b0", "x:0", 1), board("b1", "y:0", 2), board("b2", "y:0", 3)];
    assert_eq!(
        pending_board_spending_outpoint(&boards, "y:0").unwrap().funding_txid,
        txid("b1")
    );
    assert!(pending_board_spending_outpoint(&boards, "z:0").is_none());
    let intent = OnchainReceiveIntentRecord {
        quote_id: "q".to_string(),
        deposit_outpoint: "y:0".to_string(),
        gross_sat: 10,
        state: OnchainReceiveIntentState::Detected { detected_at: 1 },
    };
    let boarding = boarding_intent_from_pending(intent, &boards[1], 4, 5);
    assert_eq!(boarding.gross_sat, 10);
    assert!(matches!(
        boarding.state,
        OnchainReceiveIntentState::Boarding {
            attempt: 4, fee_sat: 8, amount_sat: 2, started_at: 5, ..
        }
    ));
}

#[test]
fn payjoin_board_is_recorded_once_and_credited_once() {
    let mut b = backend();
    b.payjoin.state.put_quote(&onramp_quote(QUOTE));
    let deposit = format!("{}:1", txid("b0"));
    let result = |net: u64| BoardResult::Boarded {
        board_txid: txid("b0"),
        board_vout: 1,
        net_sat: net,
        deposit_outpoint: deposit.clone(),
        gross_sat: 50_000,
        board_vtxo_ids: vec![outpoint("b0", 0)],
    };
    b.poll_onramp(
        &vec![
            (QUOTE.to_string(), Ok(result(49_000))),
            (QUOTE.to_string(), Ok(result(1))),
            ("other".to_string(), Ok(BoardResult::InProgress)),
            ("failed".to_string(), Err("cosign".to_string())),
        ],
        11,
    );
    assert_eq!(b.state_store.receive_intents().len(), 1);
    assert!(matches!(
        state_of(&b, &deposit),
        OnchainReceiveIntentState::Boarding {
            attempt: 1, fee_sat: 1000, amount_sat: 49_000, started_at: 11, ..
        }
    ));
    let (responses, _) = b.check_onchain_receive(QUOTE, true);
    assert_eq!(responses.len(), 0);
    b.finalize_spendable_receive_boards(&vec![outpoint("b0", 0)], 12);
    let (responses, events) = b.check_onchain_receive(QUOTE, false);
    assert_eq!((responses.len(), events.len()), (1, 0));
    match b.next_onchain_receive_event().unwrap() {
        Some((PaymentEvent::PaymentReceived(received), Some(event))) => {
            assert_eq!(received.amount_sat, 49_000);
            assert_eq!(received.payment_id, format!("{}:1", txid("b0")));
            assert!(matches!(received.payment_identifier, PaymentIdentifier::QuoteId(q) if q == QUOTE));
            assert_eq!(event.stage, OnRampStage::EcashIssued);
            assert_eq!(event.data.ecash_amount_sat, Some(49_000));
        }
        other => panic!("{:?}", other),
    }
    assert!(b.next_onchain_receive_event().unwrap().is_none());
    // The polling path still lists it, and tells the dashboard.
    let (responses, events) = b.check_onchain_receive(QUOTE, true);
    assert_eq!(responses[0].amount_sat, 49_000);
    assert_eq!(responses[0].payment_id, deposit);
    assert_eq!(events[0].stage, OnRampStage::EcashIssued);
    assert_eq!(events[0].data.board_txid, Some(txid("b0")));
    assert!(b.state_store.is_receive_reported(&deposit));
}

#[test]
fn receive_with_a_bad_quote_id_is_not_reported() {
    let mut b = backend();
    b.record_payjoin_boarding_intent("bad id", "d:0", "tx", 0, 100, 90, &Vec::new(), 3);
    b.finalize_spendable_receive_boards(&Vec::new(), 4);
    let parse = "bad id".parse::<cdk_common::QuoteId>().unwrap_err();
    assert_eq!(
        message(b.next_onchain_receive_event().err().unwrap()),
        format!("Invalid stored quote id bad id: {}", parse)
    );
    assert!(!b.state_store.is_receive_reported("d:0"));
}

#[test]
fn one_pass_recovers_finalizes_detects_and_readies() {
    let mut b = backend();
    b.state_store.put_receive_address(QUOTE, &address());
    b.record_payjoin_boarding_intent(QUOTE, "p:0", "tx", 0, 100, 90, &vec![outpoint("b9", 0)], 3);
    b.state_store.put_receive_intent(&OnchainReceiveIntentRecord {
        quote_id: QUOTE.to_string(),
        deposit_outpoint: outpoint("bb", 0),
        gross_sat: 1,
        state: OnchainReceiveIntentState::BoardPreparing {
            attempt: 1,
            attempt_id: "x".to_string(),
            started_at: 1,
        },
    });
    let snapshot = WalletSnapshot {
        boards: Ok(Vec::new()),
        outputs: vec![output("aa", Some(10)), output("bb", Some(9))],
        spendable: vec![outpoint("b9", 0)],
        tip: 10,
    };
    let (events, ready) = b.process_onchain_receive_boards(&snapshot, 40);
    // The quote is no on-ramp quote, so nothing is told to the dashboard.
    assert_eq!(events.len(), 0);
    assert!(matches!(state_of(&b, "p:0"), OnchainReceiveIntentState::Finalized { .. }));
    let outpoints: Vec<String> = ready
        .unwrap_or_else(|_| Vec::new())
        .into_iter()
        .map(|r| b.begin_board(r, 40).ok().unwrap().outpoint().clone())
        .collect();
    assert_eq!(outpoints, vec![outpoint("aa", 0), outpoint("bb", 0)]);
    assert!(matches!(
        state_of(&b, &outpoint("bb", 0)),
        OnchainReceiveIntentState::BoardPreparing { attempt: 2, .. }
    ));
}

#[test]
fn pass_stops_where_boards_cannot_be_listed() {
    let mut b = backend();
    b.state_store.put_receive_intent(&OnchainReceiveIntentRecord {
        quote_id: QUOTE.to_string(),
        deposit_outpoint: outpoint("bb", 0),
        gross_sat: 1,
        state: OnchainReceiveIntentState::BoardPreparing {
            attempt: 1,
            attempt_id: "x".to_string(),
            started_at: 1,
        },
    });
    b.record_payjoin_boarding_intent(QUOTE, "p:0", "tx", 0, 100, 90, &Vec::new(), 3);
    let snapshot = WalletSnapshot {
        boards: Err("busy".to_string()),
        outputs: Vec::new(),
        spendable: Vec::new(),
        tip: 10,
    };
    let (events, ready) = b.process_onchain_receive_boards(&snapshot, 40);
    assert_eq!(events.len(), 0);
    assert_eq!(message(ready.err().unwrap()), "Failed to list pending boards: busy");
    assert!(matches!(state_of(&b, "p:0"), OnchainReceiveIntentState::Boarding { .. }));
}
