//! On-chain receives: deposits are detected, boarded, finalized once their board is spendable, and
//! reported to the mint once.

use crate::adapters::{
    address_of_script, outpoint_parsed, parse_outpoint, parse_quote_id, parse_vtxo_id,
    quote_id_parsed, result_text, script_address, vtxo_id_parsed,
};
use crate::ark_backend::{
    lemma_receives_failed, lemma_receives_next, receives_stepped, ArkBackend, BackendView,
    ONCHAIN_CONFIRMATIONS,
};
use crate::ark_store::{intents_view, ArkState};
use crate::intents::{
    OnchainReceiveIntentRecord, OnchainReceiveIntentState, ReceiveIntent, ReceiveState,
};
use crate::network::Network;
use crate::order::{key_order, precedes};
use crate::payjoin_receiver::{Board, PendingBoard};
use crate::payment::{unit_result, Failure, PaymentError};
use crate::seqs::{
    first_where, lemma_filter_holds, lemma_filter_next, lemma_first_found, lemma_first_is,
    lemma_first_key, lemma_no_first, values_of,
};
use crate::telemetry::{
    event_of, events_view, EventData, OnRampEvent, OnRampStage, TelemetryEvent,
};
use crate::text::{cat2, cat4, copy_texts, has_text, opt_text, str_eq, texts};
use vstd::prelude::*;

verus! {

// ---- boards that spend a deposit ------------------------------------------------------------

/// What each of several boards says.
pub open spec fn boards_view(v: Seq<PendingBoard>) -> Seq<Board> {
    v.map_values(|b: PendingBoard| b@)
}

/// What the wallet says of its boards, or why it cannot.
pub open spec fn boards_result(r: Result<Vec<PendingBoard>, String>) -> Result<
    Seq<Board>,
    Seq<char>,
> {
    match r {
        Ok(v) => Ok(boards_view(v@)),
        Err(e) => Err(e@),
    }
}

/// The first board whose funding transaction spends an outpoint.
pub open spec fn board_spending(boards: Seq<Board>, outpoint: Seq<char>) -> Option<Board> {
    first_where(boards, |b: Board| b.funding_inputs.contains(outpoint))
}

/// Finds the first board whose funding transaction spends an outpoint.
pub fn pending_board_spending_outpoint<'a>(boards: &'a Vec<PendingBoard>, outpoint: &str) -> (found:
    Option<&'a PendingBoard>)
    ensures
        (match found {
            Some(b) => Some(b@),
            None => None,
        }) == board_spending(boards_view(boards@), outpoint@),
{
    let ghost all = boards_view(boards@);
    let ghost spends = |b: Board| b.funding_inputs.contains(outpoint@);
    let mut i: usize = 0;
    while i < boards.len()
        invariant
            all == boards_view(boards@),
            spends == (|b: Board| b.funding_inputs.contains(outpoint@)),
            i <= boards@.len(),
            forall|j: int| 0 <= j < i ==> !spends(#[trigger] all[j]),
        decreases boards@.len() - i,
    {
        proof {
            assert(all[i as int] == boards@[i as int]@);
        }
        if has_text(&boards[i].funding_inputs, outpoint) {
            proof {
                lemma_first_is(all, spends, i as int);
            }
            return Some(&boards[i]);
        }
        i += 1;
    }
    proof {
        lemma_no_first(all, spends);
    }
    None
}

/// A difference, or nothing where it would be negative.
pub open spec fn less(a: u64, b: u64) -> u64 {
    if a > b {
        (a - b) as u64
    } else {
        0
    }
}

/// A deposit that a board spends: what the board does not hold of it is the fee.
pub open spec fn boarding(
    intent: ReceiveIntent,
    board: Board,
    attempt: u32,
    started_at: u64,
) -> ReceiveIntent {
    ReceiveIntent {
        state: ReceiveState::Boarding {
            attempt,
            board_txid: board.funding_txid,
            board_vout: board.board_vout,
            board_vtxo_ids: board.vtxo_ids,
            fee_sat: less(intent.gross_sat, board.amount_sat),
            amount_sat: board.amount_sat,
            started_at,
        },
        ..intent
    }
}

/// Notes on a deposit the board that spends it.
pub fn boarding_intent_from_pending(
    intent: OnchainReceiveIntentRecord,
    pending_board: &PendingBoard,
    attempt: u32,
    started_at: u64,
) -> (out: OnchainReceiveIntentRecord)
    ensures
        out@ == boarding(intent@, pending_board@, attempt, started_at),
{
    let fee_sat: u64 = intent.gross_sat.saturating_sub(pending_board.amount_sat);
    OnchainReceiveIntentRecord {
        state: OnchainReceiveIntentState::Boarding {
            attempt,
            board_txid: pending_board.funding_txid.clone(),
            board_vout: pending_board.board_vout,
            board_vtxo_ids: copy_texts(&pending_board.vtxo_ids),
            fee_sat,
            amount_sat: pending_board.amount_sat,
            started_at,
        },
        ..intent
    }
}

/// What is said of a deposit whose stored outpoint cannot be read.
pub open spec fn bad_outpoint(stored: Seq<char>, error: Seq<char>) -> Failure {
    Failure::Custom("Invalid stored deposit outpoint "@ + stored + ": "@ + error)
}

fn bad_outpoint_error(stored: &str, error: &str) -> (e: PaymentError)
    ensures
        e@ == bad_outpoint(stored@, error@),
{
    PaymentError::Custom(cat4("Invalid stored deposit outpoint ", stored, ": ", error))
}

/// What is said when the wallet cannot list its boards.
pub open spec fn no_boards(error: Seq<char>) -> Failure {
    Failure::Custom("Failed to list pending boards: "@ + error)
}

// ---- recovery of interrupted boards ---------------------------------------------------------

/// What becomes of a deposit whose board was interrupted while it was prepared: it is boarding if
/// a board spends it, it is tried again if it is still there, and else somebody has to look.
pub open spec fn interrupted(
    intent: ReceiveIntent,
    outpoint: Seq<char>,
    attempt: u32,
    started_at: u64,
    boards: Seq<Board>,
    unspent: Seq<Seq<char>>,
    now: u64,
) -> ReceiveIntent {
    match board_spending(boards, outpoint) {
        Some(board) => boarding(intent, board, attempt, started_at),
        None => if unspent.contains(outpoint) {
            ReceiveIntent {
                state: ReceiveState::RetryableFailed {
                    attempt,
                    reason: "Interrupted before board was committed"@,
                    failed_at: now,
                    retry_after: now,
                },
                ..intent
            }
        } else {
            ReceiveIntent {
                state: ReceiveState::NeedsReview {
                    reason: "Interrupted board attempt spent the target outpoint but no Bark pending board was found"@,
                    failed_at: now,
                },
                ..intent
            }
        },
    }
}

/// Decides what becomes of a deposit whose board was interrupted, given its parsed outpoint.
pub fn resolve_interrupted(
    intent: OnchainReceiveIntentRecord,
    outpoint: &str,
    attempt: u32,
    started_at: u64,
    boards: &Vec<PendingBoard>,
    unspent: &Vec<String>,
    now: u64,
) -> (out: OnchainReceiveIntentRecord)
    ensures
        out@ == interrupted(
            intent@,
            outpoint@,
            attempt,
            started_at,
            boards_view(boards@),
            texts(unspent@),
            now,
        ),
{
    match pending_board_spending_outpoint(boards, outpoint) {
        Some(board) => boarding_intent_from_pending(intent, board, attempt, started_at),
        None => {
            let state = if has_text(unspent, outpoint) {
                OnchainReceiveIntentState::RetryableFailed {
                    attempt,
                    reason: "Interrupted before board was committed".to_owned(),
                    failed_at: now,
                    retry_after: now,
                }
            } else {
                OnchainReceiveIntentState::NeedsReview {
                    reason: "Interrupted board attempt spent the target outpoint but no Bark pending board was found".to_owned(),
                    failed_at: now,
                }
            };
            OnchainReceiveIntentRecord { state, ..intent }
        },
    }
}

/// What recovery writes for a deposit, if anything.
pub open spec fn recovery(
    intent: ReceiveIntent,
    boards: Result<Seq<Board>, Seq<char>>,
    unspent: Seq<Seq<char>>,
    now: u64,
) -> Result<Option<ReceiveIntent>, Failure> {
    match intent.state {
        ReceiveState::BoardPreparing { attempt, started_at, .. } => match outpoint_parsed(
            intent.deposit_outpoint,
        ) {
            Err(e) => Err(bad_outpoint(intent.deposit_outpoint, e)),
            Ok(outpoint) => match boards {
                Err(e) => Err(no_boards(e)),
                Ok(list) => Ok(
                    Some(interrupted(intent, outpoint, attempt, started_at, list, unspent, now)),
                ),
            },
        },
        _ => Ok(None),
    }
}

/// The result of a step, as the contracts speak of it.
pub open spec fn step_view(r: Result<Option<OnchainReceiveIntentRecord>, PaymentError>) -> Result<
    Option<ReceiveIntent>,
    Failure,
> {
    match r {
        Ok(Some(i)) => Ok(Some(i@)),
        Ok(None) => Ok(None),
        Err(e) => Err(e@),
    }
}

fn recover_one(
    intent: &OnchainReceiveIntentRecord,
    boards: &Result<Vec<PendingBoard>, String>,
    unspent: &Vec<String>,
    now: u64,
) -> (r: Result<Option<OnchainReceiveIntentRecord>, PaymentError>)
    ensures
        step_view(r) == recovery(intent@, boards_result(*boards), texts(unspent@), now),
{
    match &intent.state {
        OnchainReceiveIntentState::BoardPreparing { attempt, started_at, .. } => {
            let outpoint = match parse_outpoint(intent.deposit_outpoint.as_str()) {
                Ok(o) => o,
                Err(e) => {
                    return Err(
                        bad_outpoint_error(intent.deposit_outpoint.as_str(), e.as_str()),
                    );
                },
            };
            match boards {
                Ok(list) => Ok(
                    Some(
                        resolve_interrupted(
                            intent.clone(),
                            outpoint.as_str(),
                            *attempt,
                            *started_at,
                            list,
                            unspent,
                            now,
                        ),
                    ),
                ),
                Err(e) => Err(
                    PaymentError::Custom(cat2("Failed to list pending boards: ", e.as_str())),
                ),
            }
        },
        _ => Ok(None),
    }
}

impl ArkBackend {
    /// Recovers the deposits whose boards were interrupted while they were prepared.
    pub fn recover_preparing_receive_boards(
        &mut self,
        boards: &Result<Vec<PendingBoard>, String>,
        unspent: &Vec<String>,
        now: u64,
    ) -> (r: Result<(), PaymentError>)
        ensures
            ({
                let (store, result) = receives_stepped(
                    old(self)@.store,
                    values_of(old(self)@.store.state.receive_intents),
                    |s: ArkState, i: ReceiveIntent|
                        recovery(i, boards_result(*boards), texts(unspent@), now),
                );
                final(self)@ == old(self)@.with_store(store) && unit_result(r) == result
            }),
    {
        let intents = self.state_store.receive_intents();
        let ghost start = self@;
        let ghost items = values_of(start.store.state.receive_intents);
        let ghost step = |s: ArkState, i: ReceiveIntent|
            recovery(i, boards_result(*boards), texts(unspent@), now);
        let mut i: usize = 0;
        while i < intents.len()
            invariant
                start == old(self)@,
                items == values_of(start.store.state.receive_intents),
                intents_view(intents@) == items,
                step == (|s: ArkState, i: ReceiveIntent|
                    recovery(i, boards_result(*boards), texts(unspent@), now)),
                i <= intents@.len(),
                self@ == start.with_store(self@.store),
                receives_stepped(start.store, items.take(i as int), step) == (
                    self@.store,
                    Ok::<(), Failure>(()),
                ),
            decreases intents@.len() - i,
        {
            proof {
                assert(items[i as int] == intents@[i as int]@);
                lemma_receives_next(start.store, items, step, i as int);
            }
            match recover_one(&intents[i], boards, unspent, now) {
                Ok(Some(next)) => {
                    self.state_store.put_receive_intent(&next);
                },
                Ok(None) => {},
                Err(e) => {
                    proof {
                        lemma_receives_failed(start.store, items, step, i + 1);
                    }
                    return Err(e);
                },
            }
            i += 1;
        }
        proof {
            assert(items.take(i as int) =~= items);
        }
        Ok(())
    }
}

// ---- finalizing -----------------------------------------------------------------------------

/// Whether each id was read and names a spendable VTXO.
pub open spec fn all_spendable(
    parsed: Seq<Result<Seq<char>, Seq<char>>>,
    spendable: Seq<Seq<char>>,
) -> bool {
    forall|i: int|
        0 <= i < parsed.len() ==> #[trigger] parsed[i] is Ok && spendable.contains(parsed[i]->Ok_0)
}

/// What parsing each id of a board gives.
pub open spec fn ids_parsed(ids: Seq<Seq<char>>) -> Seq<Result<Seq<char>, Seq<char>>> {
    ids.map_values(|id: Seq<char>| vtxo_id_parsed(id))
}

/// What each of several results says.
pub open spec fn results_view(v: Seq<Result<String, String>>) -> Seq<
    Result<Seq<char>, Seq<char>>,
> {
    v.map_values(|r: Result<String, String>| result_text(r))
}

/// Tests whether each id was read and names a spendable VTXO.
pub fn board_is_spendable(parsed: &Vec<Result<String, String>>, spendable: &Vec<String>) -> (r:
    bool)
    ensures
        r == all_spendable(results_view(parsed@), texts(spendable@)),
{
    let ghost all = results_view(parsed@);
    let mut i: usize = 0;
    while i < parsed.len()
        invariant
            all == results_view(parsed@),
            i <= parsed@.len(),
            forall|j: int|
                0 <= j < i ==> #[trigger] all[j] is Ok && texts(spendable@).contains(all[j]->Ok_0),
        decreases parsed@.len() - i,
    {
        proof {
            assert(all[i as int] == result_text(parsed@[i as int]));
        }
        match &parsed[i] {
            Ok(id) => {
                if !has_text(spendable, id.as_str()) {
                    return false;
                }
            },
            Err(_) => {
                return false;
            },
        }
        i += 1;
    }
    true
}

fn parse_vtxo_ids(ids: &Vec<String>) -> (parsed: Vec<Result<String, String>>)
    ensures
        results_view(parsed@) == ids_parsed(texts(ids@)),
{
    let ghost all = ids_parsed(texts(ids@));
    let mut parsed: Vec<Result<String, String>> = Vec::new();
    let mut i: usize = 0;
    while i < ids.len()
        invariant
            all == ids_parsed(texts(ids@)),
            i <= ids@.len(),
            results_view(parsed@) == all.take(i as int),
        decreases ids@.len() - i,
    {
        let ghost before = results_view(parsed@);
        parsed.push(parse_vtxo_id(ids[i].as_str()));
        proof {
            assert(results_view(parsed@) =~= before.push(all[i as int]));
            assert(all.take(i + 1) =~= all.take(i as int).push(all[i as int]));
        }
        i += 1;
    }
    proof {
        assert(all.take(i as int) =~= all);
    }
    parsed
}

/// Whether a deposit is to be finalized: all VTXOs of its board are spendable.
pub open spec fn finalizes(intent: ReceiveIntent, spendable: Seq<Seq<char>>) -> bool {
    match intent.state {
        ReceiveState::Boarding { board_vtxo_ids, .. } => all_spendable(
            ids_parsed(board_vtxo_ids),
            spendable,
        ),
        _ => false,
    }
}

/// A deposit, finalized. Its board and its amounts stay as they were.
pub open spec fn finalized(intent: ReceiveIntent, now: u64) -> ReceiveIntent {
    match intent.state {
        ReceiveState::Boarding {
            board_txid,
            board_vout,
            board_vtxo_ids,
            fee_sat,
            amount_sat,
            ..
        } => ReceiveIntent {
            state: ReceiveState::Finalized {
                board_txid,
                board_vout,
                board_vtxo_ids,
                fee_sat,
                amount_sat,
                finalized_at: now,
            },
            ..intent
        },
        _ => intent,
    }
}

/// What finalizing writes for a deposit, if anything.
pub open spec fn finalization(
    intent: ReceiveIntent,
    spendable: Seq<Seq<char>>,
    now: u64,
) -> Result<Option<ReceiveIntent>, Failure> {
    Ok(
        if finalizes(intent, spendable) {
            Some(finalized(intent, now))
        } else {
            None
        },
    )
}

/// The event that a board is confirmed.
pub open spec fn confirmed_event(intent: ReceiveIntent) -> TelemetryEvent {
    event_of(
        intent.quote_id,
        OnRampStage::BoardConfirmed,
        EventData {
            board_txid: Some(intent.state->Boarding_board_txid),
            vtxo_amount_sat: Some(intent.state->Boarding_amount_sat),
            vtxo_ids: intent.state->Boarding_board_vtxo_ids,
            ..EventData::empty()
        },
    )
}

/// The events of finalizing: one for each deposit of an on-ramp quote that is finalized.
pub open spec fn confirmed_events(
    backend: BackendView,
    intents: Seq<ReceiveIntent>,
    spendable: Seq<Seq<char>>,
) -> Seq<TelemetryEvent> {
    intents.filter(
        |i: ReceiveIntent| finalizes(i, spendable) && backend.is_onramp(i.quote_id),
    ).map_values(|i: ReceiveIntent| confirmed_event(i))
}

impl ArkBackend {
    /// Finalizes the deposits whose boards have become spendable, and says which events to emit.
    pub fn finalize_spendable_receive_boards(
        &mut self,
        spendable: &Vec<String>,
        now: u64,
    ) -> (events: Vec<OnRampEvent>)
        ensures
            final(self)@ == old(self)@.with_store(
                receives_stepped(
                    old(self)@.store,
                    values_of(old(self)@.store.state.receive_intents),
                    |s: ArkState, i: ReceiveIntent| finalization(i, texts(spendable@), now),
                ).0,
            ),
            events_view(events@) == confirmed_events(
                old(self)@,
                values_of(old(self)@.store.state.receive_intents),
                texts(spendable@),
            ),
    {
        let intents = self.state_store.receive_intents();
        let ghost start = self@;
        let ghost items = values_of(start.store.state.receive_intents);
        let ghost step = |s: ArkState, i: ReceiveIntent|
            finalization(i, texts(spendable@), now);
        let ghost told = |i: ReceiveIntent|
            finalizes(i, texts(spendable@)) && start.is_onramp(i.quote_id);
        let ghost event = |i: ReceiveIntent| confirmed_event(i);
        let mut events: Vec<OnRampEvent> = Vec::new();
        proof {
            reveal(Seq::filter);
            assert(events_view(events@) =~= items.take(0).filter(told).map_values(event));
        }
        let mut i: usize = 0;
        while i < intents.len()
            invariant
                intents_view(intents@) == items,
                step == (|s: ArkState, i: ReceiveIntent|
                    finalization(i, texts(spendable@), now)),
                told == (|i: ReceiveIntent|
                    finalizes(i, texts(spendable@)) && start.is_onramp(i.quote_id)),
                event == (|i: ReceiveIntent| confirmed_event(i)),
                i <= intents@.len(),
                self@ == start.with_store(self@.store),
                receives_stepped(start.store, items.take(i as int), step) == (
                    self@.store,
                    Ok::<(), Failure>(()),
                ),
                events_view(events@) == items.take(i as int).filter(told).map_values(event),
            decreases intents@.len() - i,
        {
            let intent = &intents[i];
            let ghost before = events_view(events@);
            proof {
                assert(items[i as int] == intent@);
                lemma_receives_next(start.store, items, step, i as int);
                lemma_filter_next(items, told, i as int);
            }
            if let OnchainReceiveIntentState::Boarding {
                board_txid,
                board_vout,
                board_vtxo_ids,
                fee_sat,
                amount_sat,
                ..
            } = &intent.state {
                let parsed = parse_vtxo_ids(board_vtxo_ids);
                if board_is_spendable(&parsed, spendable) {
                    let done = OnchainReceiveIntentRecord {
                        quote_id: intent.quote_id.clone(),
                        deposit_outpoint: intent.deposit_outpoint.clone(),
                        gross_sat: intent.gross_sat,
                        state: OnchainReceiveIntentState::Finalized {
                            board_txid: board_txid.clone(),
                            board_vout: *board_vout,
                            board_vtxo_ids: copy_texts(board_vtxo_ids),
                            fee_sat: *fee_sat,
                            amount_sat: *amount_sat,
                            finalized_at: now,
                        },
                    };
                    self.state_store.put_receive_intent(&done);
                    if self.payjoin.state.get_quote(intent.quote_id.as_str()).is_some() {
                        events.push(
                            OnRampEvent::new(
                                intent.quote_id.as_str(),
                                OnRampStage::BoardConfirmed,
                            ).with_board_txid(board_txid.as_str()).with_vtxo_amount_sat(
                                *amount_sat,
                            ).with_vtxo_ids(copy_texts(board_vtxo_ids)),
                        );
                        proof {
                            assert(events_view(events@) =~= before.push(confirmed_event(intent@)));
                            assert(items.take(i + 1).filter(told).map_values(event)
                                =~= items.take(i as int).filter(told).map_values(event).push(
                                confirmed_event(intent@),
                            ));
                        }
                    }
                }
            }
            i += 1;
        }
        proof {
            assert(items.take(i as int) =~= items);
        }
        events
    }
}

// ---- detecting deposits ---------------------------------------------------------------------

/// An output that the on-chain wallet can spend.
pub struct WalletOutput {
    pub outpoint: String,
    pub script: Vec<u8>,
    pub value_sat: u64,
    /// The height of the block that confirms it, if one does.
    pub height: Option<u32>,
}

/// What a [`WalletOutput`] says.
pub struct Deposit {
    pub outpoint: Seq<char>,
    pub script: Seq<u8>,
    pub value_sat: u64,
    pub height: Option<u32>,
}

impl View for WalletOutput {
    type V = Deposit;

    open spec fn view(&self) -> Deposit {
        Deposit {
            outpoint: self.outpoint@,
            script: self.script@,
            value_sat: self.value_sat,
            height: self.height,
        }
    }
}

/// What each of several outputs says.
pub open spec fn deposits_view(v: Seq<WalletOutput>) -> Seq<Deposit> {
    v.map_values(|o: WalletOutput| o@)
}

/// How many confirmations an output has: its own block counts, and the blocks up to the tip. The
/// block at height zero counts as the one above it does.
pub open spec fn confirmations(height: u32, tip: u32) -> int {
    let below: int = if height > 0 {
        height - 1
    } else {
        0
    };
    if tip > below {
        tip - below
    } else {
        0
    }
}

/// The first quote that an address was handed out for.
pub open spec fn quote_for_address(
    addresses: Map<Seq<char>, Seq<char>>,
    address: Seq<char>,
) -> Option<Seq<char>> {
    first_where(key_order(addresses), |q: Seq<char>| addresses[q] == address)
}

/// The quote that an output is a new deposit for: it is confirmed, its address was handed out for
/// the quote, and it was not noted before.
pub open spec fn new_deposit_for(
    state: ArkState,
    output: Deposit,
    address: Option<Seq<char>>,
    tip: u32,
) -> Option<Seq<char>> {
    match (output.height, address) {
        (Some(height), Some(a)) => if confirmations(height, tip) >= ONCHAIN_CONFIRMATIONS
            && !state.receive_intents.dom().contains(output.outpoint) {
            quote_for_address(state.receive_addresses, a)
        } else {
            None
        },
        _ => None,
    }
}

/// What is said of a stored quote id that cannot be read.
pub open spec fn bad_quote_id(stored: Seq<char>, error: Seq<char>) -> Failure {
    Failure::Custom("Invalid stored quote id "@ + stored + ": "@ + error)
}

/// Says that a stored quote id cannot be read.
pub fn bad_quote_id_error(stored: &str, error: &str) -> (e: PaymentError)
    ensures
        e@ == bad_quote_id(stored@, error@),
{
    PaymentError::Custom(cat4("Invalid stored quote id ", stored, ": ", error))
}

/// What is noted of a new deposit for a quote, given what parsing the quote's id gave.
pub open spec fn detected(
    output: Deposit,
    quote_id: Seq<char>,
    parsed: Result<Seq<char>, Seq<char>>,
    now: u64,
) -> Result<ReceiveIntent, Failure> {
    match parsed {
        Ok(_) => Ok(
            ReceiveIntent {
                quote_id,
                deposit_outpoint: output.outpoint,
                gross_sat: output.value_sat,
                state: ReceiveState::Detected { detected_at: now },
            },
        ),
        Err(e) => Err(bad_quote_id(quote_id, e)),
    }
}

/// What detection writes for an output, if anything.
pub open spec fn detection(
    state: ArkState,
    output: Deposit,
    network: Network,
    tip: u32,
    now: u64,
) -> Result<Option<ReceiveIntent>, Failure> {
    match new_deposit_for(state, output, address_of_script(output.script, network), tip) {
        Some(q) => match detected(output, q, quote_id_parsed(q), now) {
            Ok(intent) => Ok(Some(intent)),
            Err(e) => Err(e),
        },
        None => Ok(None),
    }
}

/// Notes a new deposit for a quote, given what parsing the quote's id gave.
pub fn detect_deposit(
    output: &WalletOutput,
    quote_id: &str,
    parsed: &Result<String, String>,
    now: u64,
) -> (r: Result<OnchainReceiveIntentRecord, PaymentError>)
    ensures
        (match r {
            Ok(i) => Ok(i@),
            Err(e) => Err(e@),
        }) == detected(output@, quote_id@, result_text(*parsed), now),
{
    match parsed {
        Ok(_) => Ok(
            OnchainReceiveIntentRecord {
                quote_id: quote_id.to_owned(),
                deposit_outpoint: output.outpoint.clone(),
                gross_sat: output.value_sat,
                state: OnchainReceiveIntentState::Detected { detected_at: now },
            },
        ),
        Err(e) => Err(bad_quote_id_error(quote_id, e.as_str())),
    }
}

impl ArkBackend {
    fn find_quote_for_address(&self, address: &str) -> (q: Option<String>)
        ensures
            opt_text(q) == quote_for_address(self@.store.state.receive_addresses, address@),
    {
        let addresses = self.state_store.receive_addresses();
        let ghost m = addresses@;
        let ghost keys = key_order(m);
        let ghost wanted = |q: Seq<char>| m[q] == address@;
        let n: usize = addresses.len();
        let mut i: usize = 0;
        while i < n
            invariant
                m == addresses@,
                keys == key_order(m),
                n == keys.len(),
                wanted == (|q: Seq<char>| m[q] == address@),
                quote_for_address(self@.store.state.receive_addresses, address@) == first_where(
                    keys,
                    wanted,
                ),
                i <= n,
                forall|j: int| 0 <= j < i ==> !wanted(#[trigger] keys[j]),
            decreases n - i,
        {
            if str_eq(addresses.value_at(i).as_str(), address) {
                proof {
                    lemma_first_is(keys, wanted, i as int);
                }
                return Some(addresses.key_at(i).clone());
            }
            i += 1;
        }
        proof {
            lemma_no_first(keys, wanted);
        }
        None
    }

    /// Finds the quote that an output is a new deposit for, given the output's address.
    pub fn find_new_deposit(
        &self,
        output: &WalletOutput,
        address: &Option<String>,
        tip: u32,
    ) -> (q: Option<String>)
        ensures
            opt_text(q) == new_deposit_for(
                self@.store.state,
                output@,
                opt_text(*address),
                tip,
            ),
    {
        let height: u32 = match output.height {
            Some(h) => h,
            None => {
                return None;
            },
        };
        if tip.saturating_sub(height.saturating_sub(1)) < ONCHAIN_CONFIRMATIONS {
            return None;
        }
        let address = match address {
            Some(a) => a,
            None => {
                return None;
            },
        };
        if self.state_store.get_receive_intent(output.outpoint.as_str()).is_some() {
            return None;
        }
        self.find_quote_for_address(address.as_str())
    }

    /// Notes the confirmed outputs of the wallet that are new deposits.
    pub fn detect_confirmed_receive_deposits(
        &mut self,
        outputs: &Vec<WalletOutput>,
        tip: u32,
        now: u64,
    ) -> (r: Result<(), PaymentError>)
        ensures
            ({
                let (store, result) = receives_stepped(
                    old(self)@.store,
                    deposits_view(outputs@),
                    |s: ArkState, o: Deposit| detection(s, o, old(self)@.network, tip, now),
                );
                final(self)@ == old(self)@.with_store(store) && unit_result(r) == result
            }),
    {
        let ghost start = self@;
        let ghost items = deposits_view(outputs@);
        let ghost step = |s: ArkState, o: Deposit| detection(s, o, start.network, tip, now);
        let mut i: usize = 0;
        while i < outputs.len()
            invariant
                start == old(self)@,
                items == deposits_view(outputs@),
                step == (|s: ArkState, o: Deposit| detection(s, o, start.network, tip, now)),
                i <= outputs@.len(),
                self@ == start.with_store(self@.store),
                receives_stepped(start.store, items.take(i as int), step) == (
                    self@.store,
                    Ok::<(), Failure>(()),
                ),
            decreases outputs@.len() - i,
        {
            let output = &outputs[i];
            proof {
                assert(items[i as int] == output@);
                lemma_receives_next(start.store, items, step, i as int);
            }
            let address = script_address(&output.script, self.network);
            if let Some(quote_id) = self.find_new_deposit(output, &address, tip) {
                let parsed = parse_quote_id(quote_id.as_str());
                match detect_deposit(output, quote_id.as_str(), &parsed, now) {
                    Ok(intent) => {
                        self.state_store.put_receive_intent(&intent);
                    },
                    Err(e) => {
                        proof {
                            lemma_receives_failed(start.store, items, step, i + 1);
                        }
                        return Err(e);
                    },
                }
            }
            i += 1;
        }
        proof {
            assert(items.take(i as int) =~= items);
        }
        Ok(())
    }
}

/// A deposit belongs to a quote whose address was paid: where a quote is found for an address, that
/// address is on record for it, and it is the first such quote; and where none is, no quote has the
/// address.
pub proof fn law_quote_is_found_by_its_address(
    addresses: Map<Seq<char>, Seq<char>>,
    address: Seq<char>,
)
    requires
        addresses.dom().finite(),
    ensures
        match quote_for_address(addresses, address) {
            Some(q) => {
                &&& addresses.dom().contains(q) && addresses[q] == address
                &&& forall|k: Seq<char>| #[trigger]
                    addresses.dom().contains(k) && addresses[k] == address ==> k == q || precedes(
                        q,
                        k,
                    )
            },
            None => forall|k: Seq<char>| #[trigger]
                addresses.dom().contains(k) ==> addresses[k] != address,
        },
{
    let keys = key_order(addresses);
    assert forall|p: spec_fn(Seq<char>) -> bool|
        match #[trigger] first_where(keys, p) {
            Some(found) => {
                &&& addresses.dom().contains(found) && p(found)
                &&& forall|k: Seq<char>| #[trigger]
                    addresses.dom().contains(k) && p(k) ==> k == found || precedes(found, k)
            },
            None => forall|k: Seq<char>| #[trigger] addresses.dom().contains(k) ==> !p(k),
        } by {
        lemma_first_key(addresses, p);
    }
}

/// What is detected is a confirmed output that was not noted before and that pays the very address
/// on record for the quote it is noted for: with its outpoint, and for its whole value.
pub proof fn law_detected_deposit_paid_its_quote(
    state: ArkState,
    output: Deposit,
    network: Network,
    tip: u32,
    now: u64,
)
    requires
        state.is_sound(),
    ensures
        detection(state, output, network, tip, now) matches Ok(Some(intent)) ==> {
            &&& output.height matches Some(height) && 1 <= tip && height <= tip
            &&& !state.receive_intents.dom().contains(output.outpoint)
            &&& state.receive_addresses.dom().contains(intent.quote_id)
            &&& address_of_script(output.script, network) == Some(
                state.receive_addresses[intent.quote_id],
            )
            &&& intent.deposit_outpoint == output.outpoint
            &&& intent.gross_sat == output.value_sat
            &&& intent.state == (ReceiveState::Detected { detected_at: now })
            &&& quote_id_parsed(intent.quote_id) is Ok
        },
{
    if let Some(a) = address_of_script(output.script, network) {
        law_quote_is_found_by_its_address(state.receive_addresses, a);
    }
}

/// A confirmed output that was not noted before and that pays an address on record is not passed
/// over: it is noted, or the quote id that it belongs to cannot be read.
pub proof fn law_paid_address_is_detected(
    state: ArkState,
    output: Deposit,
    network: Network,
    tip: u32,
    now: u64,
    q: Seq<char>,
)
    requires
        state.is_sound(),
        output.height matches Some(height) && 1 <= tip && height <= tip,
        !state.receive_intents.dom().contains(output.outpoint),
        state.receive_addresses.dom().contains(q),
        address_of_script(output.script, network) == Some(state.receive_addresses[q]),
    ensures
        match detection(state, output, network, tip, now) {
            Ok(r) => r is Some,
            Err(_) => exists|k: Seq<char>| #[trigger]
                state.receive_addresses.dom().contains(k) && state.receive_addresses[k]
                    == state.receive_addresses[q] && quote_id_parsed(k) is Err,
        },
{
    law_quote_is_found_by_its_address(state.receive_addresses, state.receive_addresses[q]);
}

/// The board that is found for an outpoint is one of the boards and its funding transaction spends
/// the outpoint; it is the first that does. Where none is found, none does.
pub proof fn law_board_spends_the_outpoint(boards: Seq<Board>, outpoint: Seq<char>)
    ensures
        match board_spending(boards, outpoint) {
            Some(b) => b.funding_inputs.contains(outpoint) && exists|i: int|
                0 <= i < boards.len() && boards[i] == b && forall|j: int|
                    0 <= j < i ==> !(#[trigger] boards[j]).funding_inputs.contains(outpoint),
            None => forall|i: int|
                0 <= i < boards.len() ==> !(#[trigger] boards[i]).funding_inputs.contains(outpoint),
        },
{
    let spends = |b: Board| b.funding_inputs.contains(outpoint);
    crate::seqs::lemma_found(boards, spends);
    if board_spending(boards, outpoint) is Some {
        let at = lemma_first_found(boards, spends);
        assert forall|j: int| 0 <= j < at implies !(
        #[trigger] boards[j]).funding_inputs.contains(outpoint) by {
            assert(!spends(boards[j]));
        }
    } else {
        assert forall|i: int| 0 <= i < boards.len() implies !(
        #[trigger] boards[i]).funding_inputs.contains(outpoint) by {
            assert(!spends(boards[i]));
        }
    }
}

/// A deposit that is boarding is noted with its board: the board output, the VTXOs, and as the
/// amount what the board holds.
pub proof fn law_boarding_notes_the_board(
    intent: ReceiveIntent,
    board: Board,
    attempt: u32,
    started_at: u64,
)
    ensures
        ({
            let next = boarding(intent, board, attempt, started_at);
            &&& next.quote_id == intent.quote_id && next.deposit_outpoint == intent.deposit_outpoint
                && next.gross_sat == intent.gross_sat
            &&& next.state is Boarding
            &&& next.state->Boarding_board_txid == board.funding_txid
            &&& next.state->Boarding_board_vout == board.board_vout
            &&& next.state->Boarding_board_vtxo_ids == board.vtxo_ids
            &&& next.state->Boarding_amount_sat == board.amount_sat
            &&& next.state->Boarding_attempt == attempt
            &&& next.state->Boarding_started_at == started_at
            &&& board.amount_sat >= intent.gross_sat ==> next.state->Boarding_fee_sat == 0
            &&& board.amount_sat <= intent.gross_sat ==> next.state->Boarding_fee_sat
                + board.amount_sat == intent.gross_sat
        }),
{
}

/// Recovery is for boards that were interrupted while they were prepared. Such a deposit is
/// boarding with a board that spends it, where there is one; else it can be tried again at once if
/// the wallet still can spend it; else somebody has to look. It keeps its attempt.
pub proof fn law_recovery_resolves_interrupted_boards(
    intent: ReceiveIntent,
    boards: Seq<Board>,
    unspent: Seq<Seq<char>>,
    now: u64,
)
    ensures
        !(intent.state is BoardPreparing) ==> recovery(intent, Ok(boards), unspent, now) == Ok::<
            Option<ReceiveIntent>,
            Failure,
        >(None),
        intent.state matches ReceiveState::BoardPreparing { attempt, started_at, .. } ==> (
        outpoint_parsed(intent.deposit_outpoint) matches Ok(o) ==> {
            let spent = exists|i: int|
                0 <= i < boards.len() && (#[trigger] boards[i]).funding_inputs.contains(o);
            recovery(intent, Ok(boards), unspent, now) matches Ok(Some(next)) && {
                &&& spent <==> next.state is Boarding
                &&& spent ==> exists|i: int|
                    0 <= i < boards.len() && (#[trigger] boards[i]).funding_inputs.contains(o)
                        && next.state->Boarding_board_txid == boards[i].funding_txid
                        && next.state->Boarding_board_vout == boards[i].board_vout
                        && next.state->Boarding_board_vtxo_ids == boards[i].vtxo_ids
                        && next.state->Boarding_amount_sat == boards[i].amount_sat
                        && next.state->Boarding_attempt == attempt
                        && next.state->Boarding_started_at == started_at
                &&& !spent && unspent.contains(o) ==> next.state is RetryableFailed
                    && next.state->RetryableFailed_attempt == attempt
                    && next.state->RetryableFailed_retry_after <= now
                    && next.state->RetryableFailed_failed_at == now
                &&& !spent && !unspent.contains(o) ==> next.state is NeedsReview
                    && next.state->NeedsReview_failed_at == now
            }
        }),
        intent.state is BoardPreparing && outpoint_parsed(intent.deposit_outpoint) is Err
            ==> recovery(intent, Ok(boards), unspent, now) is Err,
{
    if let Ok(o) = outpoint_parsed(intent.deposit_outpoint) {
        law_board_spends_the_outpoint(boards, o);
        if board_spending(boards, o) is Some {
            let b = board_spending(boards, o)->0;
            let i = choose|i: int|
                0 <= i < boards.len() && boards[i] == b && forall|j: int|
                    0 <= j < i ==> !(#[trigger] boards[j]).funding_inputs.contains(o);
            assert(boards[i].funding_inputs.contains(o));
        }
    }
}

/// Where the wallet cannot list its boards, recovery decides nothing about an interrupted board.
pub proof fn law_recovery_needs_the_boards(
    intent: ReceiveIntent,
    error: Seq<char>,
    unspent: Seq<Seq<char>>,
    now: u64,
)
    ensures
        intent.state is BoardPreparing <==> recovery(intent, Err(error), unspent, now) is Err,
        !(intent.state is BoardPreparing) ==> recovery(intent, Err(error), unspent, now) == Ok::<
            Option<ReceiveIntent>,
            Failure,
        >(None),
{
}

/// A deposit is finalized exactly when it is boarding and every VTXO of its board can be spent; and
/// it is finalized with its board and its amounts as they were noted.
pub proof fn law_finalized_when_all_is_spendable(
    intent: ReceiveIntent,
    spendable: Seq<Seq<char>>,
    now: u64,
)
    ensures
        finalization(intent, spendable, now) is Ok,
        finalization(intent, spendable, now)->Ok_0 is Some <==> (intent.state is Boarding && forall|
            i: int,
        |
            0 <= i < intent.state->Boarding_board_vtxo_ids.len() ==> (vtxo_id_parsed(
                #[trigger] intent.state->Boarding_board_vtxo_ids[i],
            ) matches Ok(id) && spendable.contains(id))),
        finalization(intent, spendable, now) matches Ok(Some(next)) ==> {
            &&& next.state is Finalized
            &&& next.state->Finalized_board_txid == intent.state->Boarding_board_txid
            &&& next.state->Finalized_board_vout == intent.state->Boarding_board_vout
            &&& next.state->Finalized_board_vtxo_ids == intent.state->Boarding_board_vtxo_ids
            &&& next.state->Finalized_fee_sat == intent.state->Boarding_fee_sat
            &&& next.state->Finalized_amount_sat == intent.state->Boarding_amount_sat
            &&& next.state->Finalized_finalized_at == now
        },
{
    if intent.state is Boarding {
        let ids = intent.state->Boarding_board_vtxo_ids;
        let parsed = ids_parsed(ids);
        assert forall|i: int| 0 <= i < ids.len() implies parsed[i] == vtxo_id_parsed(
            #[trigger] ids[i],
        ) by {}
        if all_spendable(parsed, spendable) {
            assert forall|i: int| 0 <= i < ids.len() implies (vtxo_id_parsed(
                #[trigger] ids[i],
            ) matches Ok(id) && spendable.contains(id)) by {
                assert(parsed[i] is Ok);
            }
        }
        if forall|i: int|
            0 <= i < ids.len() ==> (vtxo_id_parsed(#[trigger] ids[i]) matches Ok(id)
                && spendable.contains(id)) {
            assert forall|i: int| 0 <= i < parsed.len() implies #[trigger] parsed[i] is Ok
                && spendable.contains(parsed[i]->Ok_0) by {
                assert(vtxo_id_parsed(ids[i]) is Ok);
            }
        }
    }
}

/// What a [`WalletOutput`] says is what its fields hold, each under its own name.
pub proof fn law_wallet_output_says_what_it_holds(x: WalletOutput)
    ensures
        x@.outpoint == x.outpoint@,
        x@.script == x.script@,
        x@.value_sat == x.value_sat,
        x@.height == x.height,
{
}

/// An output is a new deposit for a quote only where it is confirmed and not on record and its
/// address was handed out for that quote; and where all of this holds of some quote, it is one.
pub proof fn law_new_deposit_paid_its_quote(
    state: ArkState,
    output: Deposit,
    address: Option<Seq<char>>,
    tip: u32,
    k: Seq<char>,
)
    requires
        state.is_sound(),
    ensures
        new_deposit_for(state, output, address, tip) matches Some(q) ==> {
            &&& output.height matches Some(height) && 1 <= tip && height <= tip
            &&& !state.receive_intents.dom().contains(output.outpoint)
            &&& state.receive_addresses.dom().contains(q)
            &&& address == Some(state.receive_addresses[q])
        },
        (output.height matches Some(height) && 1 <= tip && height <= tip)
            && !state.receive_intents.dom().contains(output.outpoint)
            && state.receive_addresses.dom().contains(k) && address == Some(
            state.receive_addresses[k],
        ) ==> new_deposit_for(state, output, address, tip) is Some,
{
    if let Some(a) = address {
        law_quote_is_found_by_its_address(state.receive_addresses, a);
    }
}

/// An output in the block at the tip has one confirmation, and each block on top of it adds one. One
/// above the tip has none, and one in the very first block has as many as one in the next.
pub proof fn law_confirmations_count_blocks(height: u32, tip: u32)
    requires
        0 < height,
    ensures
        confirmations(height, height) == 1,
        height <= tip && tip < u32::MAX ==> confirmations(height, (tip + 1) as u32)
            == confirmations(height, tip) + 1,
        tip < height ==> confirmations(height, tip) == 0,
        confirmations(0, tip) == confirmations(1, tip),
{
}

/// What is noted of a new deposit is the output, for the quote, as just detected, and it is noted
/// exactly where the id of the quote can be read.
pub proof fn law_detected_is_the_output(
    output: Deposit,
    quote_id: Seq<char>,
    parsed: Result<Seq<char>, Seq<char>>,
    now: u64,
)
    ensures
        detected(output, quote_id, parsed, now) is Ok <==> parsed is Ok,
        detected(output, quote_id, parsed, now) matches Ok(intent) ==> {
            &&& intent.quote_id == quote_id && intent.deposit_outpoint == output.outpoint
            &&& intent.gross_sat == output.value_sat
            &&& intent.state == (ReceiveState::Detected { detected_at: now })
        },
{
}

/// An interrupted board is boarding exactly where some board spends the deposit, and then with that
/// board. Else the deposit can be tried at once if it is still there, and if not somebody has to look.
/// It stays the same deposit.
pub proof fn law_interrupted_board_is_looked_for(
    intent: ReceiveIntent,
    outpoint: Seq<char>,
    attempt: u32,
    started_at: u64,
    boards: Seq<Board>,
    unspent: Seq<Seq<char>>,
    now: u64,
)
    ensures
        ({
            let next = interrupted(intent, outpoint, attempt, started_at, boards, unspent, now);
            let spent = exists|i: int|
                0 <= i < boards.len() && (#[trigger] boards[i]).funding_inputs.contains(outpoint);
            &&& next.quote_id == intent.quote_id && next.deposit_outpoint
                == intent.deposit_outpoint && next.gross_sat == intent.gross_sat
            &&& spent <==> next.state is Boarding
            &&& spent ==> exists|i: int|
                0 <= i < boards.len() && (#[trigger] boards[i]).funding_inputs.contains(outpoint)
                    && next == boarding(intent, boards[i], attempt, started_at)
            &&& !spent && unspent.contains(outpoint) <==> next.state is RetryableFailed
            &&& next.state is RetryableFailed ==> next.state->RetryableFailed_attempt == attempt
                && next.state->RetryableFailed_failed_at == now
                && next.state->RetryableFailed_retry_after == now
                && next.state->RetryableFailed_reason == "Interrupted before board was committed"@
            &&& !spent && !unspent.contains(outpoint) <==> next.state is NeedsReview
            &&& next.state is NeedsReview ==> next.state->NeedsReview_failed_at == now
                && next.state->NeedsReview_reason
                == "Interrupted board attempt spent the target outpoint but no Bark pending board was found"@
        }),
{
    law_board_spends_the_outpoint(boards, outpoint);
    if board_spending(boards, outpoint) is Some {
        let b = board_spending(boards, outpoint)->0;
        let i = choose|i: int|
            0 <= i < boards.len() && boards[i] == b && forall|j: int|
                0 <= j < i ==> !(#[trigger] boards[j]).funding_inputs.contains(outpoint);
        assert(boards[i].funding_inputs.contains(outpoint));
    }
}

/// A board is spendable exactly when each of its ids was read and is one that the wallet can spend:
/// one that was not read, or that it cannot spend, is enough for it not to be.
pub proof fn law_all_coins_must_be_spendable(
    parsed: Seq<Result<Seq<char>, Seq<char>>>,
    spendable: Seq<Seq<char>>,
    i: int,
)
    ensures
        all_spendable(Seq::empty(), spendable),
        0 <= i < parsed.len() && parsed[i] is Err ==> !all_spendable(parsed, spendable),
        0 <= i < parsed.len() && (parsed[i] matches Ok(id) && !spendable.contains(id))
            ==> !all_spendable(parsed, spendable),
        (forall|j: int|
            0 <= j < parsed.len() ==> (#[trigger] parsed[j] matches Ok(id) && spendable.contains(id)))
            ==> all_spendable(parsed, spendable),
{
}

/// The event of a confirmed board is of the deposit's quote, with its board, what the board holds and
/// its coins.
pub proof fn law_confirmed_event_is_of_the_board(intent: ReceiveIntent)
    requires
        intent.state is Boarding,
    ensures
        confirmed_event(intent).quote_id == intent.quote_id,
        confirmed_event(intent).run_id == intent.quote_id,
        confirmed_event(intent).stage == OnRampStage::BoardConfirmed,
        confirmed_event(intent).data.board_txid == Some(intent.state->Boarding_board_txid),
        confirmed_event(intent).data.vtxo_amount_sat == Some(intent.state->Boarding_amount_sat),
        confirmed_event(intent).data.vtxo_ids == intent.state->Boarding_board_vtxo_ids,
        confirmed_event(intent).data.board_address is None,
        confirmed_event(intent).data.ecash_amount_sat is None,
{
}

/// The dashboard hears of exactly those deposits of on-ramp quotes that are finalized.
pub proof fn law_confirmed_boards_are_told(
    backend: BackendView,
    intents: Seq<ReceiveIntent>,
    spendable: Seq<Seq<char>>,
    k: int,
)
    ensures
        0 <= k < intents.len() && finalizes(intents[k], spendable) && backend.is_onramp(
            intents[k].quote_id,
        ) ==> confirmed_events(backend, intents, spendable).contains(confirmed_event(intents[k])),
        0 <= k < confirmed_events(backend, intents, spendable).len() ==> exists|i: int|
            0 <= i < intents.len() && finalizes(#[trigger] intents[i], spendable)
                && backend.is_onramp(intents[i].quote_id) && confirmed_events(
                backend,
                intents,
                spendable,
            )[k] == confirmed_event(intents[i]),
{
    let wanted = |i: ReceiveIntent| finalizes(i, spendable) && backend.is_onramp(i.quote_id);
    let picked = intents.filter(wanted);
    let events = confirmed_events(backend, intents, spendable);
    if 0 <= k < intents.len() && wanted(intents[k]) {
        lemma_filter_holds(intents, wanted, intents[k]);
        assert(intents.contains(intents[k]));
        let at = choose|at: int| 0 <= at < picked.len() && picked[at] == intents[k];
        assert(events[at] == confirmed_event(intents[k]));
    }
    if 0 <= k < events.len() {
        lemma_filter_holds(intents, wanted, picked[k]);
        assert(picked.contains(picked[k]));
        let i = choose|i: int| 0 <= i < intents.len() && intents[i] == picked[k];
        assert(finalizes(intents[i], spendable));
    }
}

/// What is left of an amount after a smaller one together with that is the amount, and after one that
/// is not smaller it is nothing.
pub proof fn law_what_is_left(a: u64, b: u64)
    ensures
        b <= a ==> less(a, b) + b == a,
        a <= b ==> less(a, b) == 0,
{
}

/// Several boards are said each in its place.
pub proof fn law_boards_are_said_in_order(v: Seq<PendingBoard>, i: int)
    requires
        0 <= i < v.len(),
    ensures
        boards_view(v).len() == v.len(),
        boards_view(v)[i] == v[i]@,
{
}

/// Several outputs are said each in its place.
pub proof fn law_outputs_are_said_in_order(v: Seq<WalletOutput>, i: int)
    requires
        0 <= i < v.len(),
    ensures
        deposits_view(v).len() == v.len(),
        deposits_view(v)[i] == v[i]@,
{
}

/// What was read of several ids is said each in its place.
pub proof fn law_read_ids_are_said_in_order(
    v: Seq<Result<String, String>>,
    ids: Seq<Seq<char>>,
    i: int,
)
    ensures
        results_view(v).len() == v.len(),
        0 <= i < v.len() && v[i] is Ok ==> results_view(v)[i] == Ok::<Seq<char>, Seq<char>>(
            v[i]->Ok_0@,
        ),
        0 <= i < v.len() && v[i] is Err ==> results_view(v)[i] == Err::<Seq<char>, Seq<char>>(
            v[i]->Err_0@,
        ),
        ids_parsed(ids).len() == ids.len(),
        0 <= i < ids.len() ==> ids_parsed(ids)[i] == vtxo_id_parsed(ids[i]),
{
}

/// A failure says why: what is on record and cannot be read, and what was said of it.
pub proof fn law_deposit_failures_say_why(stored: Seq<char>, error: Seq<char>)
    ensures
        bad_outpoint(stored, error) == Failure::Custom(
            "Invalid stored deposit outpoint "@ + stored + ": "@ + error,
        ),
        bad_quote_id(stored, error) == Failure::Custom(
            "Invalid stored quote id "@ + stored + ": "@ + error,
        ),
        no_boards(error) == Failure::Custom("Failed to list pending boards: "@ + error),
{
}

} // verus!
