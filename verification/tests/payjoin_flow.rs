use ark_onramp::ark_backend::ArkBackend;
use ark_onramp::ark_store::ArkStateStore;
use ark_onramp::board_walk::{
    committed_board_output_value, deposit_total, read_committed_board_output_value, AcceptedWalk,
    BoardWalk, WalkStart,
};
use ark_onramp::mint_inputs::{build_input_pair, MintInput, MintUtxo};
use ark_onramp::outputs::{script_is_p2tr, script_is_p2wpkh, TxOutput};
use ark_onramp::payjoin_receiver::{
    BoardResult, PayjoinConfig, PayjoinReceiver, PendingBoard, ResumeStep, SessionFailure,
    SessionState, SessionStatus, SessionStep,
};
use ark_onramp::payjoin_state::{OnRampQuoteRecord, OnRampStateStore};
use ark_onramp::settings::BackendConfig;
use ark_onramp::telemetry::{OnRampEvent, OnRampStage, TelemetryClient};
use payjoin::receive::v2::SessionEvent;

const SCRIPT_HEX: &str = "512079be667ef9dcbbac55a06295ce870b07029bfcdb2dce28d959f2815b16f81798";

fn receiver(inputs: u32, min_board: u64, fee_bps: u64) -> PayjoinReceiver {
    PayjoinReceiver::new(
        PayjoinConfig {
            directory_url: "https://directory".to_string(),
            ohttp_relay: "https://relay".to_string(),
            ohttp_keys: Some(vec![1, 2, 3]),
            control_url: "http://control".to_string(),
        },
        OnRampStateStore::open(Vec::new()),
        TelemetryClient::new("http://control".to_string()),
        inputs > 0,
        inputs,
        min_board,
        fee_bps,
    )
}

fn record(script_hex: &str) -> OnRampQuoteRecord {
    OnRampQuoteRecord {
        quote_id: "q1".to_string(),
        keypair_index: 5,
        expiry_height: 700,
        board_script_hex: script_hex.to_string(),
        board_address: "addr".to_string(),
        bip21_uri: "uri".to_string(),
    }
}

fn script() -> Vec<u8> {
    hex::decode(SCRIPT_HEX).unwrap()
}

fn wpkh() -> Vec<u8> {
    let mut script = vec![0x00, 0x14];
    script.extend_from_slice(&[9; 20]);
    script
}

fn paid(script: Vec<u8>, value_sat: u64) -> TxOutput {
    TxOutput { script, value_sat }
}

fn committed(outputs: Vec<(Vec<u8>, u64)>) -> String {
    let outputs = outputs
        .into_iter()
        .map(|(script, value)| bitcoin::TxOut {
            value: bitcoin::Amount::from_sat(value),
            script_pubkey: script.into(),
        })
        .collect();
    serde_json::to_string(&SessionEvent::CommittedOutputs { outputs, change_vout: 0 }).unwrap()
}

fn checked() -> String {
    serde_json::to_string(&SessionEvent::CheckedInputsNotOwned()).unwrap()
}

fn utxo(byte: u8, script: Vec<u8>) -> MintUtxo {
    MintUtxo {
        outpoint: format!("{}:0", hex::encode([byte; 32])),
        script,
        value_sat: 7000,
        is_spent: false,
    }
}

fn names(inputs: &Vec<MintInput>) -> Vec<String> {
    inputs.iter().map(|i| i.outpoint.clone()).collect()
}

fn name(byte: u8) -> String {
    format!("{}:0", hex::encode([byte; 32]))
}

#[test]
fn deposit_is_read_from_the_last_committed_outputs() {
    let events = vec![
        checked(),
        committed(vec![(wpkh(), 1), (script(), 40_000)]),
        committed(vec![(wpkh(), 2)]),
        committed(vec![(script(), 50_000), (script(), 60_000)]),
        checked(),
    ];
    assert_eq!(read_committed_board_output_value(&events, &script()), Ok(50_000));
    assert_eq!(
        read_committed_board_output_value(&events[..3].to_vec(), &script()),
        Ok(40_000)
    );
    assert_eq!(
        read_committed_board_output_value(&vec![checked()], &script()),
        Err("could not capture user deposit D: no committed board output found in session log"
            .to_string())
    );
    let bad = serde_json::from_str::<SessionEvent>("{").unwrap_err();
    let e = read_committed_board_output_value(&vec!["{".to_string()], &script()).unwrap_err();
    assert_eq!(
        e,
        format!("load session events for D capture: onramp session persister error: {}", bad)
    );
    assert_eq!(
        committed_board_output_value(&vec![None, Some(vec![paid(script(), 3)])], &script()),
        Some(3)
    );
}

fn fresh(r: &PayjoinReceiver) -> BoardWalk {
    match r.drive_from_state(&record(SCRIPT_HEX), SessionState::UncheckedOriginalPayload) {
        Ok(WalkStart::Fresh(walk)) => walk,
        _ => panic!("expected a fresh walk"),
    }
}

fn accepted(r: &PayjoinReceiver, sat: u64) -> AcceptedWalk {
    fresh(r).accept(r, &vec![paid(script(), sat)]).unwrap_or_else(|e| panic!("{}", e))
}

#[test]
fn deposit_below_the_minimum_is_refused() {
    let r = receiver(0, 10_000, 0);
    let walk = fresh(&r);
    assert_eq!(walk.board_script(), &script());
    let split = vec![paid(script(), 6_000), paid(wpkh(), 90_000), paid(script(), 4_000)];
    assert_eq!(deposit_total(&split, walk.board_script()), Some(10_000));
    assert_eq!(
        deposit_total(&vec![paid(script(), u64::MAX), paid(script(), 1)], walk.board_script()),
        None
    );
    let walk = walk.accept(&r, &split).unwrap_or_else(|e| panic!("{}", e));
    assert_eq!(walk.board_script(), &script());
    assert!(!walk.owns_input(&name(1)));
    assert!(walk.is_receiver_output(&script()));
    assert!(!walk.is_receiver_output(&wpkh()));
    let refused = |outputs: Vec<TxOutput>| fresh(&r).accept(&r, &outputs).err();
    assert_eq!(
        refused(vec![paid(script(), 9_999), paid(wpkh(), 90_000)]),
        Some("sub-minimum deposit 9999 sat (minimum 10000 sat)".to_string())
    );
    assert_eq!(
        refused(Vec::new()),
        Some("sub-minimum deposit 0 sat (minimum 10000 sat)".to_string())
    );
}

#[test]
fn walk_ends_in_the_credit_of_the_deposit() {
    let r = receiver(1, 10_000, 50);
    let funded = accepted(&r, 55_000).capture_deposit(&vec![committed(vec![(script(), 55_000)])]).unwrap_or_else(|e| panic!("{}", e));
    let proposal = funded.with_inputs(vec![name(1)]);
    let cosign = proposal
        .find_board(&vec![paid(wpkh(), 1), paid(script(), 155_000)])
        .unwrap_or_else(|e| panic!("{}", e));
    assert_eq!(cosign.keypair_index(), 5);
    assert_eq!(cosign.expiry_height(), 700);
    assert!(cosign.needs_mint_signature());
    let pending = PendingBoard {
        funding_txid: "tx".to_string(),
        board_vout: 1,
        funding_inputs: vec![name(1), name(2)],
        amount_sat: 154_900,
        vtxo_ids: vec!["v1".to_string()],
    };
    let (result, event) = cosign.boarded(&pending, &r);
    match result {
        BoardResult::Boarded {
            board_txid, board_vout, net_sat, deposit_outpoint, gross_sat, board_vtxo_ids,
        } => {
            assert_eq!((board_txid.as_str(), board_vout), ("tx", 1));
            assert_eq!(gross_sat, 55_000);
            assert_eq!(net_sat, 55_000 - 100 - 275);
            assert_eq!(deposit_outpoint, "tx:1");
            assert_eq!(board_vtxo_ids, vec!["v1"]);
        }
        other => panic!("{:?}", other),
    }
    assert_eq!(event.stage, OnRampStage::BoardBroadcast);
    assert_eq!(event.quote_id, "q1");
    assert_eq!(event.data.board_txid, Some("tx".to_string()));
}

#[test]
fn walk_without_a_board_output_fails() {
    let r = receiver(0, 1, 0);
    let start = |state: SessionState| r.drive_from_state(&record(SCRIPT_HEX), state);
    let funded = accepted(&r, 5).capture_deposit(&vec![committed(vec![(script(), 5)])]).unwrap_or_else(|e| panic!("{}", e));
    let lost = funded.with_inputs(Vec::new()).find_board(&vec![paid(wpkh(), 1)]);
    assert_eq!(lost.err(), Some("board output missing from proposal psbt".to_string()));
    assert!(accepted(&r, 5).capture_deposit(&Vec::new()).is_err());
    // Interrupted walks are resumed, not started over.
    assert!(matches!(
        start(SessionState::PayjoinProposal),
        Ok(WalkStart::Resume(ResumeStep::PostProposal))
    ));
    assert!(matches!(
        start(SessionState::WantsInputs),
        Ok(WalkStart::Resume(ResumeStep::InProgress))
    ));
    let bad = hex::decode("5").unwrap_err();
    assert_eq!(
        r.drive_from_state(&record("5"), SessionState::UncheckedOriginalPayload).err(),
        Some(format!("bad board script hex: {}", bad))
    );
}

#[test]
fn sessions_are_advanced_by_their_state() {
    let mut r = receiver(0, 1, 0);
    let active = |s: SessionState| Some((SessionStatus::Active, s));
    // A quote that is not known is left alone.
    assert_eq!(r.advance_session("q1", active(SessionState::Initialized)), SessionStep::Idle);
    r.state.put_quote(&record(SCRIPT_HEX));
    assert_eq!(r.poll_all(), vec!["q1"]);
    assert_eq!(
        r.advance_session("q1", active(SessionState::Initialized)),
        SessionStep::PollForOriginal
    );
    for s in [
        SessionState::UncheckedOriginalPayload, SessionState::MaybeInputsOwned,
        SessionState::MaybeInputsSeen, SessionState::OutputsUnknown, SessionState::WantsOutputs,
        SessionState::WantsInputs, SessionState::WantsFeeRange, SessionState::ProvisionalProposal,
    ] {
        assert_eq!(r.advance_session("q1", active(s)), SessionStep::Drive);
    }
    assert_eq!(
        r.advance_session("q1", active(SessionState::PayjoinProposal)),
        SessionStep::PostProposal
    );
    assert_eq!(
        r.advance_session("q1", active(SessionState::Monitor)),
        SessionStep::CheckConfirmation
    );
    assert_eq!(
        r.advance_session("q1", active(SessionState::HasReplyableError)),
        SessionStep::PostErrorReply
    );
    assert_eq!(r.advance_session("q1", active(SessionState::Closed)), SessionStep::Idle);
    assert_eq!(r.advance_session("q1", None), SessionStep::Idle);
    for status in [
        SessionStatus::Expired, SessionStatus::Failed, SessionStatus::Completed,
        SessionStatus::FallbackBroadcasted,
    ] {
        assert_eq!(
            r.advance_session("q1", Some((status, SessionState::Initialized))),
            SessionStep::Idle
        );
    }
    assert_eq!(r.resume_partial(SessionState::Monitor), ResumeStep::CheckConfirmation);
    assert_eq!(r.resume_partial(SessionState::ProvisionalProposal), ResumeStep::InProgress);
}

#[test]
fn session_is_created_only_with_keys() {
    let r = receiver(0, 1, 0);
    assert_eq!(r.session_keys(), Ok(&vec![1, 2, 3]));
    assert_eq!(
        r.create_session(&Ok("bitcoin:a?pjos=0&pj=b".to_string())),
        Ok("bitcoin:a?pj=b".to_string())
    );
    assert_eq!(
        r.create_session(&Err(SessionFailure::Build("no url".to_string()))),
        Err("failed to build payjoin receiver: no url".to_string())
    );
    assert_eq!(
        r.create_session(&Err(SessionFailure::Persist("disk".to_string()))),
        Err("failed to persist payjoin session: disk".to_string())
    );
    let mut without = receiver(0, 1, 0);
    without.config.ohttp_keys = None;
    assert_eq!(without.session_keys(), Err("payjoin ohttp_keys not configured".to_string()));
    assert_eq!(
        without.create_session(&Ok("bitcoin:a".to_string())),
        Err("payjoin ohttp_keys not configured".to_string())
    );
}

#[test]
fn original_is_told_to_the_dashboard() {
    let mut r = receiver(0, 1, 0);
    let (event, result) = r.poll_for_original("q1", false, None);
    assert!(event.is_none());
    assert!(matches!(result, Ok(BoardResult::Idle)));
    let (event, result) = r.poll_for_original("q1", true, None);
    assert_eq!(event.unwrap().stage, OnRampStage::PayjoinReceived);
    assert_eq!(result.err(), Some("quote q1 vanished".to_string()));
    r.state.put_quote(&record(SCRIPT_HEX));
    let (_, result) = r.poll_for_original("q1", true, Some("torn".to_string()));
    assert_eq!(result.err(), Some("replay: torn".to_string()));
    let (_, result) = r.poll_for_original("q1", true, None);
    assert!(matches!(result, Ok(BoardResult::InProgress)));
    let (event, result) = r.post_proposal("q1");
    assert_eq!(event.stage, OnRampStage::ProposalSent);
    assert!(matches!(result, BoardResult::InProgress));
}

#[test]
fn probing_input_is_seen_the_second_time() {
    let mut r = receiver(0, 1, 0);
    assert!(!r.check_input_seen("a:0"));
    assert!(r.check_input_seen("a:0"));
    assert!(!r.check_input_seen("a:1"));
}

#[test]
fn input_pair_spends_the_coin_that_was_given() {
    let coin = utxo(3, script());
    let built = build_input_pair(&coin).unwrap();
    assert_eq!(built.pair.outpoint().to_string(), name(3));
    let txout = bitcoin::TxOut {
        value: bitcoin::Amount::from_sat(7000),
        script_pubkey: script().into(),
    };
    let expected = payjoin::receive::InputPair::new_p2tr_keyspend(
        txout,
        name(3).parse::<bitcoin::OutPoint>().unwrap(),
    )
    .unwrap();
    assert!(built.pair == expected);
    let built = build_input_pair(&utxo(4, wpkh())).unwrap();
    let txout =
        bitcoin::TxOut { value: bitcoin::Amount::from_sat(7000), script_pubkey: wpkh().into() };
    let expected = payjoin::receive::InputPair::new_p2wpkh(
        txout,
        name(4).parse::<bitcoin::OutPoint>().unwrap(),
    )
    .unwrap();
    assert!(built.pair == expected);
    assert!(build_input_pair(&utxo(5, vec![0x6a])).is_none());
    let mut nowhere = utxo(6, script());
    nowhere.outpoint = "nowhere".to_string();
    assert!(build_input_pair(&nowhere).is_none());
    for s in [script(), wpkh(), vec![0x6a], Vec::new(), script()[..33].to_vec()] {
        let as_script = bitcoin::ScriptBuf::from_bytes(s.clone());
        assert_eq!(script_is_p2tr(&s), as_script.is_p2tr());
        assert_eq!(script_is_p2wpkh(&s), as_script.is_p2wpkh());
    }
}

#[test]
fn boards_do_not_share_coins() {
    let mut r = receiver(2, 1, 0);
    let mut spent = utxo(1, script());
    spent.is_spent = true;
    let coins = vec![
        spent, utxo(2, script()), utxo(3, vec![0x6a]), utxo(4, wpkh()), utxo(5, script()),
        utxo(6, script()),
    ];
    let found = r.mint_candidates(&coins);
    assert_eq!(names(&found), vec![name(2), name(4), name(5), name(6)]);
    let selected = r.select_mint_inputs("q1", found, Some(2));
    assert_eq!(names(&selected), vec![name(5), name(2)]);
    assert_eq!(selected[0].pair.outpoint().to_string(), name(5));
    assert_eq!(r.state.locked_utxos().get(&name(5)), Some(&"q1".to_string()));
    let found = r.mint_candidates(&coins);
    assert_eq!(names(&found), vec![name(4), name(6)]);
    // A choice out of range falls back to the first candidate.
    let second = r.select_mint_inputs("q2", found, Some(9));
    assert_eq!(names(&second), vec![name(4), name(6)]);
    assert_eq!(r.mint_candidates(&coins).len(), 0);
    assert_eq!(r.select_mint_inputs("q3", Vec::new(), None).len(), 0);
    // A restart forgets what is in memory and keeps what is durable.
    let mut restarted = receiver(2, 1, 0);
    restarted.state = OnRampStateStore::open(r.state.take_pending());
    assert_eq!(restarted.mint_candidates(&coins).len(), 0);
    r.unlock_utxos("q1", &vec![name(5), name(2)]);
    assert_eq!(names(&r.mint_candidates(&coins)), vec![name(2), name(5)]);
}

#[test]
fn no_more_coins_are_selected_than_configured() {
    let mut r = receiver(0, 1, 0);
    let coins = vec![utxo(1, script()), utxo(2, script())];
    let found = r.mint_candidates(&coins);
    assert_eq!(r.select_mint_inputs("q1", found, Some(1)).len(), 0);
    assert_eq!(r.state.locked_utxos().len(), 0);
    let mut one = receiver(1, 1, 0);
    let found = one.mint_candidates(&coins);
    assert_eq!(names(&one.select_mint_inputs("q1", found, Some(1))), vec![name(2)]);
    let mut many = receiver(9, 1, 0);
    let found = many.mint_candidates(&coins);
    assert_eq!(names(&many.select_mint_inputs("q1", found, None)), vec![name(1), name(2)]);
}

#[test]
fn events_carry_their_data_to_the_control_url() {
    let client = TelemetryClient::new("http://control//".to_string());
    assert_eq!(client.event_url(), "http://control/onramp/event");
    let event = OnRampEvent::new("q1", OnRampStage::BoardConfirmed)
        .with_board_address("addr")
        .with_board_txid("tx")
        .with_vtxo_amount_sat(5)
        .with_ecash_amount_sat(4)
        .with_vtxo_ids(vec!["v".to_string()]);
    let (url, event) = client.emit(event);
    assert_eq!(url, "http://control/onramp/event");
    assert_eq!(event.run_id, "q1");
    assert_eq!(event.data.board_address, Some("addr".to_string()));
    assert_eq!(event.data.board_txid, Some("tx".to_string()));
    assert_eq!(event.data.vtxo_amount_sat, Some(5));
    assert_eq!(event.data.ecash_amount_sat, Some(4));
    assert_eq!(event.data.vtxo_ids, vec!["v"]);
    let names: Vec<String> = [
        OnRampStage::QuoteCreated, OnRampStage::PayjoinReceived, OnRampStage::ProposalSent,
        OnRampStage::BoardBroadcast, OnRampStage::BoardConfirmed, OnRampStage::EcashIssued,
    ]
    .iter()
    .map(|s| s.wire_name())
    .collect();
    assert_eq!(
        names,
        vec![
            "quote_created", "payjoin_received", "proposal_sent", "board_broadcast",
            "board_confirmed", "ecash_issued",
        ]
    );
}

#[test]
fn backend_hands_out_its_receiver() {
    let backend = ArkBackend::new(
        &BackendConfig::default(),
        ArkStateStore::open(Vec::new()),
        OnRampStateStore::open(Vec::new()),
        None,
        77,
    );
    assert_eq!(backend.payjoin_receiver().min_board_amount_sat, 77);
    assert_eq!(backend.payjoin_receiver().config.directory_url, "https://payjo.in");
}
