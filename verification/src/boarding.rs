//! Attempts to board a deposit. An attempt is written down before the wallet is asked, and its
//! outcome after.

use crate::adapters::{new_attempt_id, outpoint_parsed, parse_outpoint, result_text};
use crate::ark_backend::{ArkBackend, RETRY_BACKOFF_SECS};
use crate::ark_store::{ArkState, StateRow, StoreView};
use crate::intents::{
    OnchainReceiveIntentRecord, OnchainReceiveIntentState, ReceiveIntent, ReceiveState,
};
use crate::payjoin_receiver::{Board, BoardOutcome, BoardResult, PendingBoard};
use crate::payment::{unit_result, Failure, PaymentError};
use crate::receives::{
    bad_outpoint, board_spending, boarding, boarding_intent_from_pending, boards_result,
    law_board_spends_the_outpoint, less, no_boards, pending_board_spending_outpoint,
};
use crate::order::{key_order, lemma_key_order};
use crate::seqs::{lemma_filter_holds, lemma_filter_next, lemma_values_listed, values_of};
use crate::text::{cat2, cat4, copy_texts, has_text, texts};
use vstd::prelude::*;

verus! {

/// A sum, or the largest number where it would not fit.
pub open spec fn more(a: u64, b: u64) -> u64 {
    if a + b <= u64::MAX {
        (a + b) as u64
    } else {
        u64::MAX
    }
}

/// The number of the attempt that a deposit is ready for, if it is ready for one: the first, or
/// the next after a failure once the wait is over.
pub open spec fn ready_attempt(state: ReceiveState, now: u64) -> Option<u32> {
    match state {
        ReceiveState::Detected { .. } => Some(1),
        ReceiveState::RetryableFailed { attempt, retry_after, .. } => if retry_after <= now {
            Some(
                if attempt < u32::MAX {
                    (attempt + 1) as u32
                } else {
                    attempt
                },
            )
        } else {
            None
        },
        _ => None,
    }
}

/// A deposit that is ready for an attempt.
pub struct ReadyBoard {
    intent: OnchainReceiveIntentRecord,
    attempt: u32,
}

/// What a [`ReadyBoard`] holds.
pub struct Ready {
    pub intent: ReceiveIntent,
    pub attempt: u32,
}

impl View for ReadyBoard {
    type V = Ready;

    closed spec fn view(&self) -> Ready {
        Ready { intent: self.intent@, attempt: self.attempt }
    }
}

/// What each of several ready deposits holds.
pub open spec fn ready_view(v: Seq<ReadyBoard>) -> Seq<Ready> {
    v.map_values(|r: ReadyBoard| r@)
}

/// The deposits that are ready for an attempt, in the order of their outpoints' texts.
pub open spec fn ready_boards(state: ArkState, now: u64) -> Seq<Ready> {
    values_of(state.receive_intents).filter(
        |i: ReceiveIntent| ready_attempt(i.state, now) is Some,
    ).map_values(
        |i: ReceiveIntent| Ready { intent: i, attempt: ready_attempt(i.state, now)->0 },
    )
}

/// A deposit while its board is prepared.
pub open spec fn preparing(ready: Ready, attempt_id: Seq<char>, started_at: u64) -> ReceiveIntent {
    ReceiveIntent {
        state: ReceiveState::BoardPreparing { attempt: ready.attempt, attempt_id, started_at },
        ..ready.intent
    }
}

/// An attempt that is under way.
pub struct BoardAttempt {
    preparing: OnchainReceiveIntentRecord,
    outpoint: String,
    attempt: u32,
    started_at: u64,
}

/// What a [`BoardAttempt`] holds.
pub struct Attempt {
    pub preparing: ReceiveIntent,
    /// The canonical text of the deposit's outpoint.
    pub outpoint: Seq<char>,
    pub attempt: u32,
    pub started_at: u64,
}

impl View for BoardAttempt {
    type V = Attempt;

    closed spec fn view(&self) -> Attempt {
        Attempt {
            preparing: self.preparing@,
            outpoint: self.outpoint@,
            attempt: self.attempt,
            started_at: self.started_at,
        }
    }
}

/// What becomes of a deposit whose attempt failed: it is boarding if a board spends it after all,
/// it is tried again after a wait if it is still there, and else somebody has to look.
pub open spec fn attempt_failed(
    a: Attempt,
    reason: Seq<char>,
    boards: Seq<Board>,
    unspent: Seq<Seq<char>>,
    now: u64,
) -> ReceiveIntent {
    match board_spending(boards, a.outpoint) {
        Some(board) => boarding(a.preparing, board, a.attempt, a.started_at),
        None => if unspent.contains(a.outpoint) {
            ReceiveIntent {
                state: ReceiveState::RetryableFailed {
                    attempt: a.attempt,
                    reason,
                    failed_at: now,
                    retry_after: more(now, RETRY_BACKOFF_SECS),
                },
                ..a.preparing
            }
        } else {
            ReceiveIntent {
                state: ReceiveState::NeedsReview {
                    reason: "Board attempt failed after target outpoint stopped being spendable: "@
                        + reason,
                    failed_at: now,
                },
                ..a.preparing
            }
        },
    }
}

impl ArkBackend {
    /// The deposits that are ready for an attempt.
    pub fn ready_receives(&self, now: u64) -> (ready: Vec<ReadyBoard>)
        ensures
            ready_view(ready@) == ready_boards(self@.store.state, now),
    {
        let intents = self.state_store.receive_intents();
        let ghost all = values_of(self@.store.state.receive_intents);
        let ghost wanted = |i: ReceiveIntent| ready_attempt(i.state, now) is Some;
        let ghost made = |i: ReceiveIntent|
            Ready { intent: i, attempt: ready_attempt(i.state, now)->0 };
        let mut ready: Vec<ReadyBoard> = Vec::new();
        proof {
            reveal(Seq::filter);
            assert(ready_view(ready@) =~= all.take(0).filter(wanted).map_values(made));
        }
        let mut i: usize = 0;
        while i < intents.len()
            invariant
                crate::ark_store::intents_view(intents@) == all,
                wanted == (|i: ReceiveIntent| ready_attempt(i.state, now) is Some),
                made == (|i: ReceiveIntent|
                    Ready { intent: i, attempt: ready_attempt(i.state, now)->0 }),
                i <= intents@.len(),
                ready_view(ready@) == all.take(i as int).filter(wanted).map_values(made),
            decreases intents@.len() - i,
        {
            let intent = &intents[i];
            let ghost before = ready_view(ready@);
            proof {
                assert(all[i as int] == intent@);
                lemma_filter_next(all, wanted, i as int);
            }
            let attempt: Option<u32> = match &intent.state {
                OnchainReceiveIntentState::Detected { .. } => Some(1),
                OnchainReceiveIntentState::RetryableFailed { attempt, retry_after, .. } => {
                    if *retry_after <= now {
                        Some(attempt.saturating_add(1))
                    } else {
                        None
                    }
                },
                _ => None,
            };
            if let Some(attempt) = attempt {
                ready.push(ReadyBoard { intent: intent.clone(), attempt });
                proof {
                    assert(ready_view(ready@) =~= before.push(made(intent@)));
                    assert(all.take(i + 1).filter(wanted).map_values(made) =~= all.take(
                        i as int,
                    ).filter(wanted).map_values(made).push(made(intent@)));
                }
            }
            i += 1;
        }
        proof {
            assert(all.take(i as int) =~= all);
        }
        ready
    }

    /// Begins an attempt under a given id, given what parsing the outpoint of the deposit gave:
    /// writes it down, and hands out what the wallet needs.
    pub fn begin_board_as(
        &mut self,
        ready: ReadyBoard,
        parsed: Result<String, String>,
        attempt_id: String,
        started_at: u64,
    ) -> (r: Result<BoardAttempt, PaymentError>)
        ensures
            match result_text(parsed) {
                Ok(outpoint) => r matches Ok(a) && a@ == (Attempt {
                    preparing: preparing(ready@, attempt_id@, started_at),
                    outpoint,
                    attempt: ready@.attempt,
                    started_at,
                }) && final(self)@ == old(self)@.put(
                    StateRow::ReceiveIntent { intent: a@.preparing },
                ),
                Err(text) => r matches Err(e) && e@ == bad_outpoint(
                    ready@.intent.deposit_outpoint,
                    text,
                ) && final(self)@ == old(self)@,
            },
    {
        let outpoint = match parsed {
            Ok(o) => o,
            Err(e) => {
                return Err(
                    PaymentError::Custom(
                        cat4(
                            "Invalid stored deposit outpoint ",
                            ready.intent.deposit_outpoint.as_str(),
                            ": ",
                            e.as_str(),
                        ),
                    ),
                );
            },
        };
        let attempt: u32 = ready.attempt;
        let preparing = OnchainReceiveIntentRecord {
            state: OnchainReceiveIntentState::BoardPreparing { attempt, attempt_id, started_at },
            ..ready.intent
        };
        self.state_store.put_receive_intent(&preparing);
        Ok(BoardAttempt { preparing, outpoint, attempt, started_at })
    }

    /// Begins an attempt under a fresh id.
    pub fn begin_board(&mut self, ready: ReadyBoard, started_at: u64) -> (r: Result<
        BoardAttempt,
        PaymentError,
    >)
        ensures
            match r {
                Ok(a) => outpoint_parsed(ready@.intent.deposit_outpoint) == Ok::<
                    Seq<char>,
                    Seq<char>,
                >(a@.outpoint) && a@.preparing.state is BoardPreparing && a@.preparing
                    == preparing(
                    ready@,
                    a@.preparing.state->BoardPreparing_attempt_id,
                    started_at,
                ) && a@.attempt == ready@.attempt && a@.started_at == started_at && final(self)@
                    == old(self)@.put(StateRow::ReceiveIntent { intent: a@.preparing }),
                Err(e) => outpoint_parsed(ready@.intent.deposit_outpoint) matches Err(text) && e@
                    == bad_outpoint(ready@.intent.deposit_outpoint, text) && final(self)@ == old(
                    self,
                )@,
            },
    {
        let parsed = parse_outpoint(ready.intent.deposit_outpoint.as_str());
        let attempt_id = new_attempt_id();
        self.begin_board_as(ready, parsed, attempt_id, started_at)
    }

    /// Notes a payjoin board, which is cosigned outside of the attempts, as a deposit that is
    /// boarding. A deposit that is already known is left alone.
    pub fn record_payjoin_boarding_intent(
        &mut self,
        quote_id: &str,
        deposit_outpoint: &str,
        board_txid: &str,
        board_vout: u32,
        gross_sat: u64,
        amount_sat: u64,
        board_vtxo_ids: &Vec<String>,
        now: u64,
    )
        ensures
            final(self)@ == old(self)@.with_store(
                payjoin_recorded(
                    old(self)@.store,
                    quote_id@,
                    BoardOutcome::Boarded {
                        board_txid: board_txid@,
                        board_vout,
                        net_sat: amount_sat,
                        deposit_outpoint: deposit_outpoint@,
                        gross_sat,
                        board_vtxo_ids: texts(board_vtxo_ids@),
                    },
                    now,
                ),
            ),
    {
        if self.state_store.get_receive_intent(deposit_outpoint).is_some() {
            return;
        }
        let intent = OnchainReceiveIntentRecord {
            quote_id: quote_id.to_owned(),
            deposit_outpoint: deposit_outpoint.to_owned(),
            gross_sat,
            state: OnchainReceiveIntentState::Boarding {
                attempt: 1,
                board_txid: board_txid.to_owned(),
                board_vout,
                board_vtxo_ids: copy_texts(board_vtxo_ids),
                fee_sat: gross_sat.saturating_sub(amount_sat),
                amount_sat,
                started_at: now,
            },
        };
        self.state_store.put_receive_intent(&intent);
    }

    /// Takes in what came of advancing the payjoin sessions: each board that was cosigned becomes
    /// a deposit that is boarding, and everything else changes nothing.
    pub fn poll_onramp(&mut self, results: &Vec<(String, Result<BoardResult, String>)>, now: u64)
        ensures
            final(self)@ == old(self)@.with_store(
                all_recorded(old(self)@.store, outcomes_view(results@), now),
            ),
    {
        let ghost start = self@;
        let ghost all = outcomes_view(results@);
        let mut i: usize = 0;
        while i < results.len()
            invariant
                all == outcomes_view(results@),
                i <= results@.len(),
                self@ == start.with_store(all_recorded(start.store, all.take(i as int), now)),
            decreases results@.len() - i,
        {
            proof {
                assert(all.take(i + 1).drop_last() =~= all.take(i as int));
                assert(all.take(i + 1).last() == outcome_view(results@[i as int]));
            }
            if let Ok(BoardResult::Boarded {
                board_txid,
                board_vout,
                net_sat,
                deposit_outpoint,
                gross_sat,
                board_vtxo_ids,
            }) = &results[i].1 {
                self.record_payjoin_boarding_intent(
                    results[i].0.as_str(),
                    deposit_outpoint.as_str(),
                    board_txid.as_str(),
                    *board_vout,
                    *gross_sat,
                    *net_sat,
                    board_vtxo_ids,
                    now,
                );
            }
            i += 1;
        }
        proof {
            assert(all.take(i as int) =~= all);
        }
    }
}

/// The store after the result of a payjoin session was taken in.
pub open spec fn payjoin_recorded(
    store: StoreView,
    quote_id: Seq<char>,
    outcome: BoardOutcome,
    now: u64,
) -> StoreView {
    match outcome {
        BoardOutcome::Boarded {
            board_txid,
            board_vout,
            net_sat,
            deposit_outpoint,
            gross_sat,
            board_vtxo_ids,
        } => if store.state.receive_intents.dom().contains(deposit_outpoint) {
            store
        } else {
            store.put(
                StateRow::ReceiveIntent {
                    intent: ReceiveIntent {
                        quote_id,
                        deposit_outpoint,
                        gross_sat,
                        state: ReceiveState::Boarding {
                            attempt: 1,
                            board_txid,
                            board_vout,
                            board_vtxo_ids,
                            fee_sat: less(gross_sat, net_sat),
                            amount_sat: net_sat,
                            started_at: now,
                        },
                    },
                },
            )
        },
        _ => store,
    }
}

/// What came of a session, with its quote. An error is nothing to take in.
pub open spec fn outcome_view(r: (String, Result<BoardResult, String>)) -> (
    Seq<char>,
    Option<BoardOutcome>,
) {
    (
        r.0@,
        match r.1 {
            Ok(result) => Some(result@),
            Err(_) => None,
        },
    )
}

/// What came of each of several sessions.
pub open spec fn outcomes_view(v: Seq<(String, Result<BoardResult, String>)>) -> Seq<
    (Seq<char>, Option<BoardOutcome>),
> {
    v.map_values(|r: (String, Result<BoardResult, String>)| outcome_view(r))
}

/// The store after the results of several sessions were taken in.
pub open spec fn all_recorded(
    store: StoreView,
    outcomes: Seq<(Seq<char>, Option<BoardOutcome>)>,
    now: u64,
) -> StoreView
    decreases outcomes.len(),
{
    if outcomes.len() == 0 {
        store
    } else {
        let before = all_recorded(store, outcomes.drop_last(), now);
        match outcomes.last().1 {
            Some(outcome) => payjoin_recorded(before, outcomes.last().0, outcome, now),
            None => before,
        }
    }
}

impl BoardAttempt {
    /// The outpoint to board.
    pub fn outpoint(&self) -> (o: &String)
        ensures
            o@ == self@.outpoint,
    {
        &self.outpoint
    }

    /// Notes that the wallet made a board.
    pub fn succeeded(self, backend: &mut ArkBackend, pending_board: &PendingBoard)
        ensures
            final(backend)@ == old(backend)@.put(
                StateRow::ReceiveIntent {
                    intent: boarding(
                        self@.preparing,
                        pending_board@,
                        self@.attempt,
                        self@.started_at,
                    ),
                },
            ),
    {
        let intent = boarding_intent_from_pending(
            self.preparing,
            pending_board,
            self.attempt,
            self.started_at,
        );
        backend.state_store.put_receive_intent(&intent);
    }

    /// Notes that the wallet failed, given what boards it holds now and what it can still spend.
    pub fn failed(
        self,
        backend: &mut ArkBackend,
        reason: &str,
        boards: &Result<Vec<PendingBoard>, String>,
        unspent: &Vec<String>,
        now: u64,
    ) -> (r: Result<(), PaymentError>)
        ensures
            match boards_result(*boards) {
                Ok(list) => r is Ok && final(backend)@ == old(backend)@.put(
                    StateRow::ReceiveIntent {
                        intent: attempt_failed(self@, reason@, list, texts(unspent@), now),
                    },
                ),
                Err(e) => unit_result(r) == Err::<(), Failure>(no_boards(e)) && final(backend)@
                    == old(backend)@,
            },
    {
        let list = match boards {
            Ok(list) => list,
            Err(e) => {
                return Err(
                    PaymentError::Custom(cat2("Failed to list pending boards: ", e.as_str())),
                );
            },
        };
        let intent = match pending_board_spending_outpoint(list, self.outpoint.as_str()) {
            Some(board) => boarding_intent_from_pending(
                self.preparing,
                board,
                self.attempt,
                self.started_at,
            ),
            None => {
                let state = if has_text(unspent, self.outpoint.as_str()) {
                    OnchainReceiveIntentState::RetryableFailed {
                        attempt: self.attempt,
                        reason: reason.to_owned(),
                        failed_at: now,
                        retry_after: now.saturating_add(RETRY_BACKOFF_SECS),
                    }
                } else {
                    OnchainReceiveIntentState::NeedsReview {
                        reason: cat2(
                            "Board attempt failed after target outpoint stopped being spendable: ",
                            reason,
                        ),
                        failed_at: now,
                    }
                };
                OnchainReceiveIntentRecord { state, ..self.preparing }
            },
        };
        backend.state_store.put_receive_intent(&intent);
        Ok(())
    }
}

/// A deposit is ready for an attempt exactly when it was just detected, or when an attempt failed
/// and the wait is over. The first attempt is the first, and one after a failure counts on.
pub proof fn law_ready_after_detection_or_wait(state: ReceiveState, now: u64)
    ensures
        state is Detected ==> ready_attempt(state, now) == Some(1u32),
        state matches ReceiveState::RetryableFailed { attempt, retry_after, .. } ==> (
        ready_attempt(state, now) is Some <==> retry_after <= now) && (attempt < u32::MAX && retry_after
            <= now ==> ready_attempt(state, now)->0 == attempt + 1) && (attempt == u32::MAX
            && retry_after <= now ==> ready_attempt(state, now)->0 == attempt),
        !(state is Detected) && !(state is RetryableFailed) ==> ready_attempt(state, now) is None,
{
}

/// The deposits that are ready are deposits on record as they are there, with the number of the
/// attempt that is due; and none that is due is left out.
pub proof fn law_ready_boards_are_those_due(state: ArkState, now: u64, k: Seq<char>, i: int)
    requires
        state.is_sound(),
    ensures
        state.receive_intents.dom().contains(k) && (state.receive_intents[k].state is Detected || (
        state.receive_intents[k].state is RetryableFailed
            && state.receive_intents[k].state->RetryableFailed_retry_after <= now)) ==> exists|at: int|
            0 <= at < ready_boards(state, now).len() && (#[trigger] ready_boards(state, now)[at]).intent
                == state.receive_intents[k],
        0 <= i < ready_boards(state, now).len() ==> {
            let ready = ready_boards(state, now)[i];
            let own = ready.intent.deposit_outpoint;
            &&& state.receive_intents.dom().contains(own) && state.receive_intents[own]
                == ready.intent
            &&& ready.intent.state is Detected || (ready.intent.state is RetryableFailed
                && ready.intent.state->RetryableFailed_retry_after <= now)
            &&& ready.intent.state is Detected ==> ready.attempt == 1
            &&& ready.intent.state matches ReceiveState::RetryableFailed { attempt, .. } ==> attempt
                < u32::MAX ==> ready.attempt == attempt + 1
        },
{
    let m = state.receive_intents;
    let all = values_of(m);
    let wanted = |i: ReceiveIntent| ready_attempt(i.state, now) is Some;
    let picked = all.filter(wanted);
    let ready = ready_boards(state, now);
    lemma_values_listed(m);
    lemma_key_order(m);
    if 0 <= i < ready.len() {
        lemma_filter_holds(all, wanted, picked[i]);
        assert(picked.contains(picked[i]));
        let at = choose|at: int| 0 <= at < all.len() && all[at] == picked[i];
        assert(m.dom().contains(key_order(m)[at]));
        law_ready_after_detection_or_wait(picked[i].state, now);
    }
    if m.dom().contains(k) && wanted(m[k]) {
        lemma_filter_holds(all, wanted, m[k]);
        let at = choose|at: int| 0 <= at < picked.len() && picked[at] == m[k];
        assert(ready[at].intent == m[k]);
    }
}

/// An attempt is of the deposit that was ready, under the number that was due.
pub proof fn law_preparing_is_of_the_deposit(ready: Ready, attempt_id: Seq<char>, started_at: u64)
    ensures
        ({
            let next = preparing(ready, attempt_id, started_at);
            &&& next.quote_id == ready.intent.quote_id && next.deposit_outpoint
                == ready.intent.deposit_outpoint && next.gross_sat == ready.intent.gross_sat
            &&& next.state == (ReceiveState::BoardPreparing {
                attempt: ready.attempt,
                attempt_id,
                started_at,
            })
        }),
{
}

/// A failed attempt leaves a deposit boarding exactly where a board spends it after all. Else it can
/// be tried again if the wallet still can spend it, but not for half a minute; and else somebody has
/// to look. What failed is noted.
pub proof fn law_failed_attempt_is_followed_up(
    a: Attempt,
    reason: Seq<char>,
    boards: Seq<Board>,
    unspent: Seq<Seq<char>>,
    now: u64,
    later: u64,
)
    ensures
        ({
            let next = attempt_failed(a, reason, boards, unspent, now);
            let spent = exists|i: int|
                0 <= i < boards.len() && (#[trigger] boards[i]).funding_inputs.contains(a.outpoint);
            &&& spent <==> next.state is Boarding
            &&& spent ==> exists|i: int|
                0 <= i < boards.len() && (#[trigger] boards[i]).funding_inputs.contains(a.outpoint)
                    && next.state->Boarding_board_txid == boards[i].funding_txid
                    && next.state->Boarding_board_vout == boards[i].board_vout
                    && next.state->Boarding_amount_sat == boards[i].amount_sat
                    && next.state->Boarding_attempt == a.attempt
            &&& !spent && unspent.contains(a.outpoint) <==> next.state is RetryableFailed
            &&& next.state is RetryableFailed ==> next.state->RetryableFailed_attempt == a.attempt
                && next.state->RetryableFailed_reason == reason
                && next.state->RetryableFailed_failed_at == now && (now + 30 <= u64::MAX ==> (
            ready_attempt(next.state, later) is Some <==> now + 30 <= later))
            &&& !spent && !unspent.contains(a.outpoint) <==> next.state is NeedsReview
        }),
{
    law_board_spends_the_outpoint(boards, a.outpoint);
    if board_spending(boards, a.outpoint) is Some {
        let b = board_spending(boards, a.outpoint)->0;
        let i = choose|i: int|
            0 <= i < boards.len() && boards[i] == b && forall|j: int|
                0 <= j < i ==> !(#[trigger] boards[j]).funding_inputs.contains(a.outpoint);
        assert(boards[i].funding_inputs.contains(a.outpoint));
    }
}

/// A payjoin board that was cosigned is noted as a deposit of its quote that is boarding, with what
/// was paid in, what is credited and what lies between. A deposit that is on record is left alone,
/// and everything else that comes of a session changes nothing.
pub proof fn law_payjoin_board_is_noted(
    store: StoreView,
    quote_id: Seq<char>,
    outcome: BoardOutcome,
    now: u64,
    k: Seq<char>,
)
    ensures
        ({
            let before = store.state.receive_intents;
            let after = payjoin_recorded(store, quote_id, outcome, now).state;
            &&& after == (ArkState { receive_intents: after.receive_intents, ..store.state })
            &&& before.dom().contains(k) ==> after.receive_intents.dom().contains(k)
                && after.receive_intents[k] == before[k]
            &&& !before.dom().contains(k) ==> (after.receive_intents.dom().contains(k) <==> (
            outcome is Boarded && outcome->deposit_outpoint == k))
            &&& !before.dom().contains(k) && after.receive_intents.dom().contains(k) ==> {
                let next = after.receive_intents[k];
                &&& next.quote_id == quote_id && next.deposit_outpoint == k
                &&& next.gross_sat == outcome->gross_sat
                &&& next.state is Boarding
                &&& next.state->Boarding_board_txid == outcome->Boarded_board_txid
                &&& next.state->Boarding_board_vout == outcome->board_vout
                &&& next.state->Boarding_board_vtxo_ids == outcome->board_vtxo_ids
                &&& next.state->Boarding_amount_sat == outcome->Boarded_net_sat
                &&& outcome->Boarded_net_sat <= outcome->gross_sat ==> next.state->Boarding_amount_sat
                    + next.state->Boarding_fee_sat == outcome->gross_sat
                &&& next.state->Boarding_started_at == now && next.state->Boarding_attempt == 1
            }
        }),
{
}

/// Of the results of several sessions every cosigned board is noted, and nothing else is: a deposit
/// that is new comes from a board among the results, for the quote of that session.
pub proof fn law_all_boards_are_noted(
    store: StoreView,
    outcomes: Seq<(Seq<char>, Option<BoardOutcome>)>,
    now: u64,
    k: Seq<char>,
)
    ensures
        ({
            let before = store.state.receive_intents;
            let after = all_recorded(store, outcomes, now).state;
            &&& after == (ArkState { receive_intents: after.receive_intents, ..store.state })
            &&& before.dom().contains(k) ==> after.receive_intents.dom().contains(k)
                && after.receive_intents[k] == before[k]
            &&& forall|i: int|
                0 <= i < outcomes.len() && (#[trigger] outcomes[i]).1 is Some && outcomes[i].1->0 is Boarded
                    ==> after.receive_intents.dom().contains(outcomes[i].1->0->deposit_outpoint)
            &&& after.receive_intents.dom().contains(k) && !before.dom().contains(k) ==> exists|
                i: int,
            |
                0 <= i < outcomes.len() && (#[trigger] outcomes[i]).1 is Some && outcomes[i].1->0 is Boarded
                    && outcomes[i].1->0->deposit_outpoint == k && after.receive_intents[k].quote_id
                    == outcomes[i].0 && after.receive_intents[k].gross_sat
                    == outcomes[i].1->0->gross_sat && after.receive_intents[k].state is Boarding
                    && after.receive_intents[k].state->Boarding_amount_sat
                    == outcomes[i].1->0->Boarded_net_sat
        }),
    decreases outcomes.len(),
{
    if outcomes.len() > 0 {
        let front = outcomes.drop_last();
        let last = outcomes.len() - 1;
        assert(outcomes.last() == outcomes[last]);
        law_all_boards_are_noted(store, front, now, k);
        let mid = all_recorded(store, front, now);
        let after = all_recorded(store, outcomes, now).state;
        if let Some(outcome) = outcomes[last].1 {
            law_payjoin_board_is_noted(mid, outcomes[last].0, outcome, now, k);
            assert forall|i: int|
                0 <= i < outcomes.len() && (#[trigger] outcomes[i]).1 is Some && outcomes[i].1->0 is Boarded implies after.receive_intents.dom().contains(
            outcomes[i].1->0->deposit_outpoint) by {
                if i < last {
                    assert(front[i] == outcomes[i]);
                }
            }
        } else {
            assert forall|i: int|
                0 <= i < outcomes.len() && (#[trigger] outcomes[i]).1 is Some && outcomes[i].1->0 is Boarded implies after.receive_intents.dom().contains(
            outcomes[i].1->0->deposit_outpoint) by {
                assert(front[i] == outcomes[i]);
            }
        }
        if after.receive_intents.dom().contains(k)
            && !store.state.receive_intents.dom().contains(k) {
            if mid.state.receive_intents.dom().contains(k) {
                let i = choose|i: int|
                    0 <= i < front.len() && (#[trigger] front[i]).1 is Some && front[i].1->0 is Boarded
                        && front[i].1->0->deposit_outpoint == k
                        && mid.state.receive_intents[k].quote_id == front[i].0
                        && mid.state.receive_intents[k].gross_sat == front[i].1->0->gross_sat
                        && mid.state.receive_intents[k].state is Boarding
                        && mid.state.receive_intents[k].state->Boarding_amount_sat
                        == front[i].1->0->Boarded_net_sat;
                assert(outcomes[i] == front[i]);
            } else {
                assert(outcomes[last].1 is Some);
            }
        }
    }
}

/// Two times together are their sum, as far as a time can say it.
pub proof fn law_times_add_up(a: u64, b: u64)
    ensures
        a + b <= u64::MAX ==> more(a, b) == a + b,
        a <= more(a, b) && b <= more(a, b),
{
}

/// Several deposits that are ready are said each in its place.
pub proof fn law_ready_boards_are_said_in_order(v: Seq<ReadyBoard>, i: int)
    requires
        0 <= i < v.len(),
    ensures
        ready_view(v).len() == v.len(),
        ready_view(v)[i] == v[i]@,
{
}

/// What came of several sessions is said each in its place, under its quote. A session that failed
/// came to nothing.
pub proof fn law_outcomes_are_said_in_order(v: Seq<(String, Result<BoardResult, String>)>, i: int)
    requires
        0 <= i < v.len(),
    ensures
        outcomes_view(v).len() == v.len(),
        outcomes_view(v)[i].0 == v[i].0@,
        v[i].1 matches Ok(result) ==> outcomes_view(v)[i].1 == Some(result@),
        v[i].1 is Err ==> outcomes_view(v)[i].1 is None,
{
}

} // verus!
