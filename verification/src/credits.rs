//! Telling the mint of finalized deposits, and what holds of deposits from their detection on.

use crate::adapters::{outpoint_parsed, parse_quote_id, quote_id_parsed, result_text};
use crate::ark_backend::{receives_stepped, ArkBackend};
use crate::ark_store::{
    finalized_for, intents_view, next_unreported, ArkState, StateRow, StoreView,
};
use crate::board_walk::{boarded, Cosign};
use crate::boarding::{
    attempt_failed, payjoin_recorded, preparing, ready_attempt, Attempt, Ready,
};
use crate::intents::{
    OnchainReceiveIntentRecord, OnchainReceiveIntentState, ReceiveIntent, ReceiveState,
};
use crate::network::Network;
use crate::order::{key_order, lemma_before_one_way, lemma_key_order, precedes};
use crate::outputs::{law_outpoints_are_told_apart, outpoint_text, write_outpoint};
use crate::payjoin_receiver::{credit, law_credit_is_deposit_less_fees, Board, BoardOutcome};
use crate::payment::{
    received_view, Failure, Identifier, News, PaymentError, PaymentEvent, PaymentIdentifier,
    Received, WaitPaymentResponse,
};
use crate::receives::{
    bad_quote_id, bad_quote_id_error, board_spending, boarding, detection, finalization, finalized,
    recovery, Deposit,
};
use crate::seqs::{lemma_filter_holds, lemma_found, lemma_values_listed, values_of};
use crate::telemetry::{
    event_of, events_view, EventData, OnRampEvent, OnRampStage, TelemetryEvent,
};
use crate::text::decimal;
use vstd::prelude::*;

verus! {

/// What the mint is told of a finalized deposit: the amount is what the board holds of it, and the
/// payment is known by the board output.
pub open spec fn credited(quote_id: Seq<char>, intent: ReceiveIntent) -> Received {
    Received {
        identifier: Identifier::QuoteId(quote_id),
        amount_sat: intent.state->Finalized_amount_sat,
        payment_id: outpoint_text(
            intent.state->Finalized_board_txid,
            intent.state->Finalized_board_vout,
        ),
    }
}

/// The event that ecash is issued for a finalized deposit.
pub open spec fn issued_event(quote_id: Seq<char>, intent: ReceiveIntent) -> TelemetryEvent {
    event_of(
        quote_id,
        OnRampStage::EcashIssued,
        EventData {
            board_txid: Some(intent.state->Finalized_board_txid),
            ecash_amount_sat: Some(intent.state->Finalized_amount_sat),
            ..EventData::empty()
        },
    )
}

/// The rows that note several deposits as reported.
pub open spec fn reported_rows(intents: Seq<ReceiveIntent>) -> Seq<StateRow> {
    intents.map_values(
        |i: ReceiveIntent| StateRow::ReceiveReported { outpoint: i.deposit_outpoint },
    )
}

impl ArkBackend {
    /// What was received on chain for a quote, and the events to emit. Where the caller credits
    /// the quote, what is returned is noted as reported.
    pub fn check_onchain_receive(&mut self, quote_id: &str, mark_reported: bool) -> (r: (
        Vec<WaitPaymentResponse>,
        Vec<OnRampEvent>,
    ))
        ensures
            received_view(r.0@) == finalized_for(old(self)@.store.state, quote_id@).map_values(
                |i: ReceiveIntent| credited(quote_id@, i),
            ),
            final(self)@ == old(self)@.with_store(
                if mark_reported {
                    old(self)@.store.put_all(
                        reported_rows(finalized_for(old(self)@.store.state, quote_id@)),
                    )
                } else {
                    old(self)@.store
                },
            ),
            events_view(r.1@) == if mark_reported && old(self)@.is_onramp(quote_id@) {
                finalized_for(old(self)@.store.state, quote_id@).map_values(
                    |i: ReceiveIntent| issued_event(quote_id@, i),
                )
            } else {
                Seq::empty()
            },
    {
        let finalized = self.state_store.finalized_receives_for_quote(quote_id);
        let is_onramp = self.payjoin.state.get_quote(quote_id).is_some();
        let ghost start = self@;
        let ghost all = finalized_for(start.store.state, quote_id@);
        let ghost told = all.map_values(|i: ReceiveIntent| credited(quote_id@, i));
        let ghost issued = all.map_values(|i: ReceiveIntent| issued_event(quote_id@, i));
        let ghost rows = reported_rows(all);
        let mut responses: Vec<WaitPaymentResponse> = Vec::new();
        let mut events: Vec<OnRampEvent> = Vec::new();
        proof {
            assert(received_view(responses@) =~= told.take(0));
            assert(events_view(events@) =~= Seq::empty());
            assert(issued.take(0) =~= Seq::empty());
            assert(rows.take(0) =~= Seq::empty());
            lemma_all_finalized(start.store.state, quote_id@);
        }
        let mut i: usize = 0;
        while i < finalized.len()
            invariant
                intents_view(finalized@) == all,
                forall|j: int| 0 <= j < all.len() ==> (#[trigger] all[j]).state is Finalized,
                told == all.map_values(|i: ReceiveIntent| credited(quote_id@, i)),
                issued == all.map_values(|i: ReceiveIntent| issued_event(quote_id@, i)),
                rows == reported_rows(all),
                is_onramp == start.is_onramp(quote_id@),
                i <= finalized@.len(),
                received_view(responses@) == told.take(i as int),
                self@ == start.with_store(
                    if mark_reported {
                        start.store.put_all(rows.take(i as int))
                    } else {
                        start.store
                    },
                ),
                events_view(events@) == if mark_reported && is_onramp {
                    issued.take(i as int)
                } else {
                    Seq::empty()
                },
            decreases finalized@.len() - i,
        {
            let intent = &finalized[i];
            let ghost before = received_view(responses@);
            let ghost before_events = events_view(events@);
            proof {
                assert(all[i as int] == intent@);
                assert(rows.take(i + 1).drop_last() =~= rows.take(i as int));
                assert(rows.take(i + 1).last() == rows[i as int]);
                assert(told.take(i + 1) =~= told.take(i as int).push(told[i as int]));
                assert(issued.take(i + 1) =~= issued.take(i as int).push(issued[i as int]));
            }
            if let OnchainReceiveIntentState::Finalized { board_txid, board_vout, amount_sat, .. } =
                &intent.state {
                if mark_reported {
                    self.state_store.mark_receive_reported(intent.deposit_outpoint.as_str());
                    if is_onramp {
                        events.push(
                            OnRampEvent::new(quote_id, OnRampStage::EcashIssued).with_board_txid(
                                board_txid.as_str(),
                            ).with_ecash_amount_sat(*amount_sat),
                        );
                        proof {
                            assert(events_view(events@) =~= before_events.push(
                                issued_event(quote_id@, intent@),
                            ));
                        }
                    }
                }
                responses.push(
                    WaitPaymentResponse {
                        payment_identifier: PaymentIdentifier::QuoteId(quote_id.to_owned()),
                        amount_sat: *amount_sat,
                        payment_id: write_outpoint(board_txid.as_str(), *board_vout),
                    },
                );
                proof {
                    assert(received_view(responses@) =~= before.push(credited(quote_id@, intent@)));
                }
            }
            i += 1;
        }
        proof {
            assert(told.take(i as int) =~= told);
            assert(issued.take(i as int) =~= issued);
            assert(rows.take(i as int) =~= rows);
        }
        (responses, events)
    }

    /// Reports a finalized deposit to the mint, given what parsing its quote's id gave.
    pub fn report_receive(
        &mut self,
        receive: &OnchainReceiveIntentRecord,
        parsed: &Result<String, String>,
    ) -> (r: Result<Option<(PaymentEvent, Option<OnRampEvent>)>, PaymentError>)
        ensures
            match (result_text(*parsed), receive@.state) {
                (Err(e), _) => r matches Err(f) && f@ == bad_quote_id(receive@.quote_id, e)
                    && final(self)@ == old(self)@,
                (Ok(id), ReceiveState::Finalized { .. }) => r matches Ok(Some((news, event)))
                    && news@ == News::Received(credited(id, receive@)) && (match event {
                    Some(e) => old(self)@.is_onramp(receive@.quote_id) && e@ == issued_event(
                        receive@.quote_id,
                        receive@,
                    ),
                    None => !old(self)@.is_onramp(receive@.quote_id),
                }) && final(self)@ == old(self)@.put(
                    StateRow::ReceiveReported { outpoint: receive@.deposit_outpoint },
                ),
                (Ok(_), _) => r matches Ok(None) && final(self)@ == old(self)@,
            },
    {
        let quote_id = match parsed {
            Ok(id) => id.clone(),
            Err(e) => {
                return Err(bad_quote_id_error(receive.quote_id.as_str(), e.as_str()));
            },
        };
        if let OnchainReceiveIntentState::Finalized { board_txid, board_vout, amount_sat, .. } =
            &receive.state {
            self.state_store.mark_receive_reported(receive.deposit_outpoint.as_str());
            let event = if self.payjoin.state.get_quote(receive.quote_id.as_str()).is_some() {
                Some(
                    OnRampEvent::new(
                        receive.quote_id.as_str(),
                        OnRampStage::EcashIssued,
                    ).with_board_txid(board_txid.as_str()).with_ecash_amount_sat(*amount_sat),
                )
            } else {
                None
            };
            let news = PaymentEvent::PaymentReceived(
                WaitPaymentResponse {
                    payment_identifier: PaymentIdentifier::QuoteId(quote_id),
                    amount_sat: *amount_sat,
                    payment_id: write_outpoint(board_txid.as_str(), *board_vout),
                },
            );
            Ok(Some((news, event)))
        } else {
            Ok(None)
        }
    }

    /// Reports the first finalized deposit that the mint has not been told of, if there is one.
    pub fn next_onchain_receive_event(&mut self) -> (r: Result<
        Option<(PaymentEvent, Option<OnRampEvent>)>,
        PaymentError,
    >)
        ensures
            match next_unreported(old(self)@.store.state) {
                None => r matches Ok(None) && final(self)@ == old(self)@,
                Some(receive) => match quote_id_parsed(receive.quote_id) {
                    Err(e) => r matches Err(f) && f@ == bad_quote_id(receive.quote_id, e)
                        && final(self)@ == old(self)@,
                    Ok(id) => r matches Ok(Some((news, event))) && news@ == News::Received(
                        credited(id, receive),
                    ) && (match event {
                        Some(e) => old(self)@.is_onramp(receive.quote_id) && e@ == issued_event(
                            receive.quote_id,
                            receive,
                        ),
                        None => !old(self)@.is_onramp(receive.quote_id),
                    }) && final(self)@ == old(self)@.put(
                        StateRow::ReceiveReported { outpoint: receive.deposit_outpoint },
                    ),
                },
            },
    {
        let receive = match self.state_store.next_unreported_finalized_receive() {
            Some(r) => r,
            None => {
                return Ok(None);
            },
        };
        proof {
            let state = self@.store.state;
            let wanted = |r: ReceiveIntent|
                r.state is Finalized && !state.reported_receives.contains(r.deposit_outpoint);
            lemma_found(values_of(state.receive_intents), wanted);
        }
        let parsed = parse_quote_id(receive.quote_id.as_str());
        self.report_receive(&receive, &parsed)
    }
}

proof fn lemma_all_finalized(state: ArkState, quote_id: Seq<char>)
    ensures
        forall|j: int|
            0 <= j < finalized_for(state, quote_id).len() ==> (#[trigger] finalized_for(
                state,
                quote_id,
            )[j]).state is Finalized,
{
    let p = |r: ReceiveIntent| r.quote_id == quote_id && r.state is Finalized;
    let all = values_of(state.receive_intents);
    let picked = finalized_for(state, quote_id);
    assert forall|j: int| 0 <= j < picked.len() implies (#[trigger] picked[j]).state is Finalized by {
        lemma_filter_holds(all, p, picked[j]);
        assert(picked.contains(picked[j]));
    }
}

// ---- what holds of deposits -----------------------------------------------------------------

/// Whether going through `items` leaves what is kept under `outpoint` alone: no step writes there.
spec fn spares<T>(
    items: Seq<T>,
    step: spec_fn(ArkState, T) -> Result<Option<ReceiveIntent>, Failure>,
    outpoint: Seq<char>,
    kept: ReceiveIntent,
) -> bool {
    forall|s: ArkState, i: int|
        0 <= i < items.len() && s.receive_intents.dom().contains(outpoint)
            && s.receive_intents[outpoint] == kept ==> match #[trigger] step(s, items[i]) {
            Ok(Some(written)) => written.deposit_outpoint != outpoint,
            _ => true,
        }
}

proof fn lemma_spared_stays<T>(
    store: StoreView,
    items: Seq<T>,
    step: spec_fn(ArkState, T) -> Result<Option<ReceiveIntent>, Failure>,
    outpoint: Seq<char>,
    kept: ReceiveIntent,
)
    requires
        spares(items, step, outpoint, kept),
        store.state.receive_intents.dom().contains(outpoint),
        store.state.receive_intents[outpoint] == kept,
    ensures
        ({
            let after = receives_stepped(store, items, step).0.state;
            after.receive_intents.dom().contains(outpoint) && after.receive_intents[outpoint]
                == kept
        }),
    decreases items.len(),
{
    if items.len() > 0 {
        let front = items.drop_last();
        assert(spares(front, step, outpoint, kept)) by {
            assert forall|s: ArkState, i: int|
                0 <= i < front.len() && s.receive_intents.dom().contains(outpoint)
                    && s.receive_intents[outpoint] == kept implies match #[trigger] step(
                s,
                front[i],
            ) {
                Ok(Some(written)) => written.deposit_outpoint != outpoint,
                _ => true,
            } by {
                assert(front[i] == items[i]);
            }
        }
        lemma_spared_stays(store, front, step, outpoint, kept);
        let before = receives_stepped(store, front, step).0;
        let ghost_step = step(before.state, items[items.len() - 1]);
        assert(items.last() == items[items.len() - 1]);
    }
}

/// A finalized deposit is never written again by recovery, by finalizing, by detection or by a
/// payjoin result, and is not boarded again: it keeps its board and its amount, and cannot be
/// credited anew. The same holds of one that somebody has to look at.
pub proof fn law_settled_deposits_stay(
    store: StoreView,
    outpoint: Seq<char>,
    boards: Result<Seq<Board>, Seq<char>>,
    unspent: Seq<Seq<char>>,
    spendable: Seq<Seq<char>>,
    outputs: Seq<Deposit>,
    network: Network,
    tip: u32,
    quote_id: Seq<char>,
    outcome: BoardOutcome,
    now: u64,
)
    requires
        store.state.is_sound(),
        store.state.receive_intents.dom().contains(outpoint),
        store.state.receive_intents[outpoint].state is Finalized
            || store.state.receive_intents[outpoint].state is NeedsReview,
    ensures
        ({
            let intents = values_of(store.state.receive_intents);
            let kept = store.state.receive_intents[outpoint];
            let recovered = receives_stepped(
                store,
                intents,
                |s: ArkState, i: ReceiveIntent| recovery(i, boards, unspent, now),
            ).0.state.receive_intents;
            let finalized = receives_stepped(
                store,
                intents,
                |s: ArkState, i: ReceiveIntent| finalization(i, spendable, now),
            ).0.state.receive_intents;
            let detected = receives_stepped(
                store,
                outputs,
                |s: ArkState, o: Deposit| detection(s, o, network, tip, now),
            ).0.state.receive_intents;
            let recorded = payjoin_recorded(
                store,
                quote_id,
                outcome,
                now,
            ).state.receive_intents;
            &&& recovered.dom().contains(outpoint) && recovered[outpoint] == kept
            &&& finalized.dom().contains(outpoint) && finalized[outpoint] == kept
            &&& detected.dom().contains(outpoint) && detected[outpoint] == kept
            &&& recorded.dom().contains(outpoint) && recorded[outpoint] == kept
            &&& ready_attempt(kept.state, now) is None
        }),
{
    let m = store.state.receive_intents;
    let intents = values_of(m);
    let kept = m[outpoint];
    lemma_key_order(m);
    assert forall|i: int| 0 <= i < intents.len() && (#[trigger] intents[i]).deposit_outpoint
        == outpoint implies intents[i] == kept by {
        assert(key_order(m).contains(key_order(m)[i]));
        assert(m.dom().contains(key_order(m)[i]));
    }
    let recover = |s: ArkState, i: ReceiveIntent| recovery(i, boards, unspent, now);
    let finalize = |s: ArkState, i: ReceiveIntent| finalization(i, spendable, now);
    let detect = |s: ArkState, o: Deposit| detection(s, o, network, tip, now);
    assert forall|s: ArkState, i: int| 0 <= i < intents.len() implies match #[trigger] recover(
        s,
        intents[i],
    ) {
        Ok(Some(written)) => written.deposit_outpoint != outpoint,
        _ => true,
    } by {}
    lemma_spared_stays(store, intents, recover, outpoint, kept);
    assert forall|s: ArkState, i: int| 0 <= i < intents.len() implies match #[trigger] finalize(
        s,
        intents[i],
    ) {
        Ok(Some(written)) => written.deposit_outpoint != outpoint,
        _ => true,
    } by {}
    lemma_spared_stays(store, intents, finalize, outpoint, kept);
    lemma_spared_stays(store, outputs, detect, outpoint, kept);
}

/// The mint is told of a deposit at most once: what was reported is not the next to report, and it
/// stays reported whatever is written.
pub proof fn law_reported_once(state: ArkState, outpoint: Seq<char>, row: StateRow)
    requires
        state.reported_receives.contains(outpoint),
    ensures
        next_unreported(state) matches Some(r) ==> r.deposit_outpoint != outpoint,
        state.written(row).reported_receives.contains(outpoint),
{
    let wanted = |r: ReceiveIntent|
        r.state is Finalized && !state.reported_receives.contains(r.deposit_outpoint);
    lemma_found(values_of(state.receive_intents), wanted);
}

/// Only a finalized deposit is reported, and as long as there is one that was not, one is.
pub proof fn law_reported_is_finalized(state: ArkState, outpoint: Seq<char>)
    requires
        state.is_sound(),
    ensures
        next_unreported(state) matches Some(r) ==> r.state is Finalized
            && state.receive_intents.dom().contains(r.deposit_outpoint)
            && state.receive_intents[r.deposit_outpoint] == r,
        state.receive_intents.dom().contains(outpoint)
            && state.receive_intents[outpoint].state is Finalized
            && !state.reported_receives.contains(outpoint) ==> next_unreported(state) is Some,
{
    let wanted = |r: ReceiveIntent|
        r.state is Finalized && !state.reported_receives.contains(r.deposit_outpoint);
    let m = state.receive_intents;
    let all = values_of(m);
    lemma_found(all, wanted);
    lemma_key_order(m);
    if let Some(r) = next_unreported(state) {
        let i = choose|i: int| 0 <= i < all.len() && all[i] == r;
        assert(key_order(m).contains(key_order(m)[i]));
        assert(m.dom().contains(key_order(m)[i]));
    }
    if m.dom().contains(outpoint) && m[outpoint].state is Finalized
        && !state.reported_receives.contains(outpoint) {
        assert(key_order(m).contains(outpoint));
        let i = choose|i: int| 0 <= i < key_order(m).len() && key_order(m)[i] == outpoint;
        assert(all[i] == m[outpoint]);
        assert(wanted(all[i]));
    }
}

/// A deposit is on record as being prepared, and in the rows to commit, before the wallet is asked
/// to board it; and while it is, it is not ready for another attempt.
pub proof fn law_attempt_is_on_record(
    store: StoreView,
    ready: Ready,
    attempt_id: Seq<char>,
    started_at: u64,
    now: u64,
)
    ensures
        ({
            let intent = preparing(ready, attempt_id, started_at);
            let after = store.put(StateRow::ReceiveIntent { intent });
            &&& after.state.receive_intents.dom().contains(ready.intent.deposit_outpoint)
            &&& after.state.receive_intents[ready.intent.deposit_outpoint] == intent
            &&& after.pending.last() == StateRow::ReceiveIntent { intent }
            &&& ready_attempt(intent.state, now) is None
        }),
{
}

/// Whatever is done with a deposit, it stays the same deposit: its quote, its outpoint and what
/// was paid in do not change.
pub proof fn law_deposit_stays_itself(
    intent: ReceiveIntent,
    boards: Result<Seq<Board>, Seq<char>>,
    unspent: Seq<Seq<char>>,
    spendable: Seq<Seq<char>>,
    attempt_id: Seq<char>,
    reason: Seq<char>,
    list: Seq<Board>,
    attempt: Attempt,
    now: u64,
)
    requires
        attempt.preparing == preparing(
            Ready { intent, attempt: attempt.attempt },
            attempt_id,
            attempt.started_at,
        ),
    ensures
        ({
            let same = |i: ReceiveIntent|
                i.quote_id == intent.quote_id && i.deposit_outpoint == intent.deposit_outpoint
                    && i.gross_sat == intent.gross_sat;
            &&& recovery(intent, boards, unspent, now) matches Ok(Some(i)) ==> same(i)
            &&& finalization(intent, spendable, now) matches Ok(Some(i)) ==> same(i)
            &&& same(attempt.preparing)
            &&& same(attempt_failed(attempt, reason, list, unspent, now))
        }),
{
}

/// A deposit is boarded at most once: recovery and a failed attempt make it ready again only where
/// no board spends it and the wallet still can.
pub proof fn law_retried_only_if_unspent(
    intent: ReceiveIntent,
    list: Seq<Board>,
    unspent: Seq<Seq<char>>,
    attempt: Attempt,
    reason: Seq<char>,
    now: u64,
    later: u64,
)
    ensures
        recovery(intent, Ok(list), unspent, now) matches Ok(Some(i)) && ready_attempt(
            i.state,
            later,
        ) is Some ==> (outpoint_parsed(intent.deposit_outpoint) matches Ok(o) && board_spending(
            list,
            o,
        ) is None && unspent.contains(o)),
        ready_attempt(attempt_failed(attempt, reason, list, unspent, now).state, later) is Some
            ==> board_spending(list, attempt.outpoint) is None && unspent.contains(
            attempt.outpoint,
        ),
{
}

/// What a board takes from a deposit and what it leaves add up to the deposit.
pub proof fn law_board_splits_the_deposit(
    intent: ReceiveIntent,
    board: Board,
    attempt: u32,
    started_at: u64,
)
    requires
        board.amount_sat <= intent.gross_sat,
    ensures
        ({
            let state = boarding(intent, board, attempt, started_at).state;
            state->Boarding_amount_sat + state->Boarding_fee_sat == intent.gross_sat
        }),
{
}

/// The mint knows a payment by its board output, so two payments that it takes for one are of the
/// same board output.
pub proof fn law_payment_is_known_by_its_board(
    quote_id: Seq<char>,
    intent: ReceiveIntent,
    other_quote: Seq<char>,
    other: ReceiveIntent,
)
    requires
        intent.state is Finalized,
        other.state is Finalized,
        credited(quote_id, intent).payment_id == credited(other_quote, other).payment_id,
    ensures
        intent.state->Finalized_board_txid == other.state->Finalized_board_txid,
        intent.state->Finalized_board_vout == other.state->Finalized_board_vout,
{
    law_outpoints_are_told_apart(
        intent.state->Finalized_board_txid,
        intent.state->Finalized_board_vout,
        other.state->Finalized_board_txid,
        other.state->Finalized_board_vout,
    );
}

/// For a payjoin board, the mint is told the net credit of the walk: it is noted when the board is
/// cosigned, kept when the board is finalized, and reported from there.
pub proof fn law_payjoin_credit_is_reported(
    store: StoreView,
    quote_id: Seq<char>,
    cosign: Cosign,
    board: Board,
    fee_bps: u64,
    now: u64,
    later: u64,
)
    requires
        ({
            let outcome = boarded(cosign, board, fee_bps);
            !store.state.receive_intents.dom().contains(outcome->deposit_outpoint)
        }),
    ensures
        ({
            let outcome = boarded(cosign, board, fee_bps);
            let outpoint = outcome->deposit_outpoint;
            let after = payjoin_recorded(store, quote_id, outcome, now).state;
            let intent = after.receive_intents[outpoint];
            let told = credited(quote_id, finalized(intent, later));
            &&& after.receive_intents.dom().contains(outpoint)
            &&& intent.quote_id == quote_id
            &&& intent.gross_sat == cosign.proposal.funded.deposit_sat
            &&& finalized(intent, later).state is Finalized
            &&& told.amount_sat == credit(
                cosign.proposal.funded.deposit_sat,
                cosign.board_value_sat,
                board.amount_sat,
                fee_bps,
            ).net
            &&& told.payment_id == outpoint
            &&& told.payment_id == outpoint_text(board.funding_txid, cosign.board_vout)
        }),
{
    law_credit_is_deposit_less_fees(
        cosign.proposal.funded.deposit_sat,
        cosign.board_value_sat,
        board.amount_sat,
        fee_bps,
    );
}

/// The mint is told of a deposit under the quote, with what its board holds for it as the amount,
/// and with the board output as the payment: the transaction, a colon and the index.
pub proof fn law_credit_is_what_the_board_holds(quote_id: Seq<char>, intent: ReceiveIntent)
    requires
        intent.state is Finalized,
    ensures
        ({
            let told = credited(quote_id, intent);
            &&& told.identifier == Identifier::QuoteId(quote_id)
            &&& told.amount_sat == intent.state->Finalized_amount_sat
            &&& told.payment_id == intent.state->Finalized_board_txid + ":"@ + decimal(
                intent.state->Finalized_board_vout as nat,
            )
        }),
{
}

/// The dashboard is told of issued ecash under the quote of the deposit, with its board and its
/// amount.
pub proof fn law_issued_event_is_of_the_deposit(quote_id: Seq<char>, intent: ReceiveIntent)
    requires
        intent.state is Finalized,
    ensures
        ({
            let event = issued_event(quote_id, intent);
            &&& event.quote_id == quote_id && event.run_id == quote_id
            &&& event.stage == OnRampStage::EcashIssued
            &&& event.data.board_txid == Some(intent.state->Finalized_board_txid)
            &&& event.data.ecash_amount_sat == Some(intent.state->Finalized_amount_sat)
            &&& event.data.vtxo_amount_sat is None && event.data.board_address is None
        }),
{
}

/// What is credited to a quote is its own finalized deposits, as they are on record; each of them,
/// and each once.
pub proof fn law_quote_is_credited_with_its_deposits(
    state: ArkState,
    quote_id: Seq<char>,
    k: Seq<char>,
    i: int,
    j: int,
)
    requires
        state.is_sound(),
    ensures
        0 <= i < finalized_for(state, quote_id).len() ==> {
            let intent = finalized_for(state, quote_id)[i];
            &&& state.receive_intents.dom().contains(intent.deposit_outpoint)
            &&& state.receive_intents[intent.deposit_outpoint] == intent
            &&& intent.quote_id == quote_id && intent.state is Finalized
        },
        state.receive_intents.dom().contains(k) && state.receive_intents[k].quote_id == quote_id
            && state.receive_intents[k].state is Finalized ==> exists|at: int|
            0 <= at < finalized_for(state, quote_id).len() && #[trigger] finalized_for(
                state,
                quote_id,
            )[at] == state.receive_intents[k],
        0 <= i < j < finalized_for(state, quote_id).len() ==> finalized_for(
            state,
            quote_id,
        )[i].deposit_outpoint != finalized_for(state, quote_id)[j].deposit_outpoint,
{
    let m = state.receive_intents;
    let all = values_of(m);
    let p = |r: ReceiveIntent| r.quote_id == quote_id && r.state is Finalized;
    let picked = all.filter(p);
    let keys = key_order(m);
    lemma_values_listed(m);
    lemma_key_order(m);
    assert forall|x: ReceiveIntent| picked.contains(x) <==> all.contains(x) && p(x) by {
        lemma_filter_holds(all, p, x);
    }
    if 0 <= i < picked.len() {
        assert(picked.contains(picked[i]));
        let at = choose|at: int| 0 <= at < all.len() && all[at] == picked[i];
        assert(m.dom().contains(keys[at]));
    }
    if m.dom().contains(k) && p(m[k]) {
        assert(picked.contains(m[k]));
    }
    assert forall|a: int, b: int| 0 <= a < b < all.len() implies (#[trigger] all[a]).deposit_outpoint
        != (#[trigger] all[b]).deposit_outpoint by {
        assert(precedes(keys[a], keys[b]));
        lemma_before_one_way(keys[a], keys[b]);
        assert(m.dom().contains(keys[a]) && m.dom().contains(keys[b]));
    }
    lemma_filter_apart(all, p);
}

proof fn lemma_filter_apart(all: Seq<ReceiveIntent>, p: spec_fn(ReceiveIntent) -> bool)
    requires
        forall|a: int, b: int|
            0 <= a < b < all.len() ==> (#[trigger] all[a]).deposit_outpoint != (
            #[trigger] all[b]).deposit_outpoint,
    ensures
        forall|a: int, b: int|
            0 <= a < b < all.filter(p).len() ==> (#[trigger] all.filter(p)[a]).deposit_outpoint != (
            #[trigger] all.filter(p)[b]).deposit_outpoint,
    decreases all.len(),
{
    reveal(Seq::filter);
    if all.len() > 0 {
        let front = all.drop_last();
        let last = all.len() - 1;
        assert(all.last() == all[last]);
        assert forall|a: int, b: int| 0 <= a < b < front.len() implies (
        #[trigger] front[a]).deposit_outpoint != (#[trigger] front[b]).deposit_outpoint by {
            assert(front[a] == all[a] && front[b] == all[b]);
        }
        lemma_filter_apart(front, p);
        let fs = front.filter(p);
        assert forall|a: int| 0 <= a < fs.len() implies (#[trigger] fs[a]).deposit_outpoint
            != all[last].deposit_outpoint by {
            lemma_filter_holds(front, p, fs[a]);
            assert(fs.contains(fs[a]));
            let at = choose|at: int| 0 <= at < front.len() && front[at] == fs[a];
            assert(all[at] == front[at]);
        }
    }
}

/// Crediting a quote notes each of the deposits as reported, and writes nothing else.
pub proof fn law_credited_deposits_are_reported(
    store: StoreView,
    intents: Seq<ReceiveIntent>,
    outpoint: Seq<char>,
)
    ensures
        ({
            let after = store.put_all(reported_rows(intents)).state;
            &&& after == (ArkState { reported_receives: after.reported_receives, ..store.state })
            &&& after.reported_receives.contains(outpoint) <==> (
            store.state.reported_receives.contains(outpoint) || exists|i: int|
                0 <= i < intents.len() && (#[trigger] intents[i]).deposit_outpoint == outpoint)
        }),
    decreases intents.len(),
{
    let rows = reported_rows(intents);
    if intents.len() > 0 {
        let front = intents.drop_last();
        law_credited_deposits_are_reported(store, front, outpoint);
        assert(rows.drop_last() =~= reported_rows(front));
        assert(intents.last() == intents[intents.len() - 1]);
        assert(rows.last() == StateRow::ReceiveReported {
            outpoint: intents.last().deposit_outpoint,
        });
        if exists|i: int|
            0 <= i < intents.len() && (#[trigger] intents[i]).deposit_outpoint == outpoint {
            let i = choose|i: int|
                0 <= i < intents.len() && (#[trigger] intents[i]).deposit_outpoint == outpoint;
            if i < front.len() {
                assert(front[i] == intents[i]);
            }
        }
        if exists|i: int|
            0 <= i < front.len() && (#[trigger] front[i]).deposit_outpoint == outpoint {
            let i = choose|i: int|
                0 <= i < front.len() && (#[trigger] front[i]).deposit_outpoint == outpoint;
            assert(intents[i] == front[i]);
        }
    }
}

} // verus!
