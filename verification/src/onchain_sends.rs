//! On-chain payments going out. A payment is written down before the wallet is asked to make it,
//! so that no quote is ever paid twice.

use crate::adapters::{parse_quote_id, parse_txid, quote_id_parsed, result_text, txid_parsed};
use crate::ark_backend::{ArkBackend, SEND_ATTEMPT_REVIEW_SECS};
use crate::ark_store::{sends_view, ArkState, StateRow, StoreView};
use crate::boarding::more;
use crate::intents::{OnchainSendIntentRecord, OnchainSendIntentState, SendIntent, SendState};
use crate::payment::{
    unit_result, Failure, Identifier, MakePaymentResponse, MeltQuoteState, News, PaymentError,
    PaymentEvent, PaymentIdentifier, Sent,
};
use crate::receives::{bad_quote_id, bad_quote_id_error};
use crate::order::precedes;
use crate::seqs::{
    first_where, lemma_first_is, lemma_first_row, lemma_found, lemma_no_first, rows_of,
};
use crate::text::{cat4, has_text, texts};
use vstd::prelude::*;

verus! {

// ---- reconciling ----------------------------------------------------------------------------

/// What is said of a stored transaction id that cannot be read.
pub open spec fn bad_txid(stored: Seq<char>, error: Seq<char>) -> Failure {
    Failure::Custom("Invalid stored offboard txid "@ + stored + ": "@ + error)
}

/// What is noted of a payment whose attempt ended without an outcome.
pub open spec fn interrupted_send() -> Seq<char> {
    "Interrupted during Bark send_onchain; pending offboards are not exposed by the public Bark API for automatic recovery"@
}

/// What reconciling writes for a payment, if anything, given what parsing its transaction id gave:
/// an attempt without an outcome needs a look after a while, and a broadcast payment is confirmed
/// once its transaction is.
pub open spec fn reconciled_with(
    send: SendIntent,
    txid: Result<Seq<char>, Seq<char>>,
    confirmed: Seq<Seq<char>>,
    now: u64,
) -> Result<Option<SendIntent>, Failure> {
    match send.state {
        SendState::Attempting { fee_sat, started_at, .. } => Ok(
            if more(started_at, SEND_ATTEMPT_REVIEW_SECS) <= now {
                Some(
                    SendIntent {
                        state: SendState::NeedsReview {
                            reason: interrupted_send(),
                            fee_sat: Some(fee_sat),
                            failed_at: now,
                        },
                        ..send
                    },
                )
            } else {
                None
            },
        ),
        SendState::Broadcast { txid: stored, fee_sat, .. } => match txid {
            Err(e) => Err(bad_txid(stored, e)),
            Ok(t) => Ok(
                if confirmed.contains(t) {
                    Some(
                        SendIntent {
                            state: SendState::Confirmed { txid: stored, fee_sat, confirmed_at: now },
                            ..send
                        },
                    )
                } else {
                    None
                },
            ),
        },
        _ => Ok(None),
    }
}

/// The same, with the transaction id parsed.
pub open spec fn reconciliation(send: SendIntent, confirmed: Seq<Seq<char>>, now: u64) -> Result<
    Option<SendIntent>,
    Failure,
> {
    reconciled_with(send, txid_parsed(send.state->Broadcast_txid), confirmed, now)
}

/// The result of a step, as the contracts speak of it.
pub open spec fn send_step_view(r: Result<Option<OnchainSendIntentRecord>, PaymentError>) -> Result<
    Option<SendIntent>,
    Failure,
> {
    match r {
        Ok(Some(s)) => Ok(Some(s@)),
        Ok(None) => Ok(None),
        Err(e) => Err(e@),
    }
}

/// Decides what reconciling writes for a payment, given what parsing its transaction id gave.
pub fn reconcile_send_with(
    send: &OnchainSendIntentRecord,
    parsed: &Result<String, String>,
    confirmed: &Vec<String>,
    now: u64,
) -> (r: Result<Option<OnchainSendIntentRecord>, PaymentError>)
    ensures
        send_step_view(r) == reconciled_with(send@, result_text(*parsed), texts(confirmed@), now),
{
    match &send.state {
        OnchainSendIntentState::Attempting { fee_sat, started_at, .. } => {
            if started_at.saturating_add(SEND_ATTEMPT_REVIEW_SECS) <= now {
                let base = send.clone();
                Ok(
                    Some(
                        OnchainSendIntentRecord {
                            state: OnchainSendIntentState::NeedsReview {
                                reason: "Interrupted during Bark send_onchain; pending offboards are not exposed by the public Bark API for automatic recovery".to_owned(),
                                fee_sat: Some(*fee_sat),
                                failed_at: now,
                            },
                            ..base
                        },
                    ),
                )
            } else {
                Ok(None)
            }
        },
        OnchainSendIntentState::Broadcast { txid, fee_sat, .. } => match parsed {
            Err(e) => Err(
                PaymentError::Custom(
                    cat4("Invalid stored offboard txid ", txid.as_str(), ": ", e.as_str()),
                ),
            ),
            Ok(t) => if has_text(confirmed, t.as_str()) {
                let base = send.clone();
                Ok(
                    Some(
                        OnchainSendIntentRecord {
                            state: OnchainSendIntentState::Confirmed {
                                txid: txid.clone(),
                                fee_sat: *fee_sat,
                                confirmed_at: now,
                            },
                            ..base
                        },
                    ),
                )
            } else {
                Ok(None)
            },
        },
        _ => Ok(None),
    }
}

fn reconcile_send(send: &OnchainSendIntentRecord, confirmed: &Vec<String>, now: u64) -> (r: Result<
    Option<OnchainSendIntentRecord>,
    PaymentError,
>)
    ensures
        send_step_view(r) == reconciliation(send@, texts(confirmed@), now),
{
    match &send.state {
        OnchainSendIntentState::Broadcast { txid, .. } => {
            let parsed = parse_txid(txid.as_str());
            reconcile_send_with(send, &parsed, confirmed, now)
        },
        _ => {
            let unused: Result<String, String> = Ok(String::new());
            reconcile_send_with(send, &unused, confirmed, now)
        },
    }
}

/// Goes through the payments and writes what reconciling gives for each. The first failure ends
/// it, and what was written before stays.
pub open spec fn sends_reconciled(
    store: StoreView,
    rows: Seq<(Seq<char>, SendIntent)>,
    confirmed: Seq<Seq<char>>,
    now: u64,
) -> (StoreView, Result<(), Failure>)
    decreases rows.len(),
{
    if rows.len() == 0 {
        (store, Ok(()))
    } else {
        let (before, r) = sends_reconciled(store, rows.drop_last(), confirmed, now);
        match r {
            Err(e) => (before, Err(e)),
            Ok(_) => match reconciliation(rows.last().1, confirmed, now) {
                Err(e) => (before, Err(e)),
                Ok(None) => (before, Ok(())),
                Ok(Some(send)) => (
                    before.put(StateRow::Send { quote_id: rows.last().0, send }),
                    Ok(()),
                ),
            },
        }
    }
}

proof fn lemma_reconcile_failed(
    store: StoreView,
    rows: Seq<(Seq<char>, SendIntent)>,
    confirmed: Seq<Seq<char>>,
    now: u64,
    n: int,
)
    requires
        0 <= n <= rows.len(),
        sends_reconciled(store, rows.take(n), confirmed, now).1 is Err,
    ensures
        sends_reconciled(store, rows, confirmed, now) == sends_reconciled(
            store,
            rows.take(n),
            confirmed,
            now,
        ),
    decreases rows.len(),
{
    if n < rows.len() {
        assert(rows.drop_last().take(n) =~= rows.take(n));
        lemma_reconcile_failed(store, rows.drop_last(), confirmed, now, n);
    } else {
        assert(rows.take(n) =~= rows);
    }
}

/// What the mint is told of an on-chain payment.
pub open spec fn send_response(quote_id: Seq<char>, send: SendIntent) -> Sent {
    let (status, proof_text, total_spent_sat) = match send.state {
        SendState::Confirmed { txid, fee_sat, .. } => (
            MeltQuoteState::Paid,
            Some(txid),
            more(send.amount_sat, fee_sat),
        ),
        SendState::Broadcast { txid, .. } => (MeltQuoteState::Pending, Some(txid), 0u64),
        _ => (MeltQuoteState::Pending, None, 0u64),
    };
    Sent { lookup_id: Identifier::QuoteId(quote_id), proof_text, status, total_spent_sat }
}

/// The first confirmed payment whose outcome the mint has not been told.
pub open spec fn next_confirmed(state: ArkState) -> Option<(Seq<char>, SendIntent)> {
    first_where(
        rows_of(state.sends),
        |row: (Seq<char>, SendIntent)|
            !state.completed_sends.contains(row.0) && row.1.state is Confirmed,
    )
}

impl ArkBackend {
    /// Brings the payments up to date with what the chain confirms.
    pub fn reconcile_onchain_sends(&mut self, confirmed: &Vec<String>, now: u64) -> (r: Result<
        (),
        PaymentError,
    >)
        ensures
            ({
                let (store, result) = sends_reconciled(
                    old(self)@.store,
                    rows_of(old(self)@.store.state.sends),
                    texts(confirmed@),
                    now,
                );
                final(self)@ == old(self)@.with_store(store) && unit_result(r) == result
            }),
    {
        let sends = self.state_store.sends();
        let ghost start = self@;
        let ghost rows = rows_of(start.store.state.sends);
        let ghost wanted = texts(confirmed@);
        let mut i: usize = 0;
        while i < sends.len()
            invariant
                start == old(self)@,
                rows == rows_of(start.store.state.sends),
                sends_view(sends@) == rows,
                wanted == texts(confirmed@),
                i <= sends@.len(),
                self@ == start.with_store(self@.store),
                sends_reconciled(start.store, rows.take(i as int), wanted, now) == (
                    self@.store,
                    Ok::<(), Failure>(()),
                ),
            decreases sends@.len() - i,
        {
            proof {
                assert(rows[i as int] == (sends@[i as int].0@, sends@[i as int].1@));
                assert(rows.take(i + 1).drop_last() =~= rows.take(i as int));
                assert(rows.take(i + 1).last() == rows[i as int]);
            }
            match reconcile_send(&sends[i].1, confirmed, now) {
                Ok(Some(next)) => {
                    self.state_store.put_send(sends[i].0.as_str(), &next);
                },
                Ok(None) => {},
                Err(e) => {
                    proof {
                        lemma_reconcile_failed(start.store, rows, wanted, now, i + 1);
                    }
                    return Err(e);
                },
            }
            i += 1;
        }
        proof {
            assert(rows.take(i as int) =~= rows);
        }
        Ok(())
    }

    /// What the mint is told of an on-chain payment. A confirmed one is noted as told, where the
    /// caller settles it.
    pub fn onchain_send_response(
        &mut self,
        quote_id: &str,
        send: &OnchainSendIntentRecord,
        mark_completed: bool,
    ) -> (response: MakePaymentResponse)
        ensures
            response@ == send_response(quote_id@, send@),
            final(self)@ == if mark_completed && send@.state is Confirmed {
                old(self)@.put(StateRow::SendCompleted { quote_id: quote_id@ })
            } else {
                old(self)@
            },
    {
        let (status, payment_proof, total_spent_sat) = match &send.state {
            OnchainSendIntentState::Confirmed { txid, fee_sat, .. } => {
                if mark_completed {
                    self.state_store.mark_send_completed(quote_id);
                }
                (
                    MeltQuoteState::Paid,
                    Some(txid.clone()),
                    send.amount_sat.saturating_add(*fee_sat),
                )
            },
            OnchainSendIntentState::Broadcast { txid, .. } => {
                (MeltQuoteState::Pending, Some(txid.clone()), 0)
            },
            _ => (MeltQuoteState::Pending, None, 0),
        };
        MakePaymentResponse {
            payment_lookup_id: PaymentIdentifier::QuoteId(quote_id.to_owned()),
            payment_proof,
            status,
            total_spent_sat,
        }
    }

    /// What the mint is told of the on-chain payment for a quote, if there is one.
    pub fn check_onchain_send(&mut self, quote_id: &str, mark_completed: bool) -> (response: Option<
        MakePaymentResponse,
    >)
        ensures
            ({
                let sends = old(self)@.store.state.sends;
                if sends.dom().contains(quote_id@) {
                    &&& response matches Some(r) && r@ == send_response(
                        quote_id@,
                        sends[quote_id@],
                    )
                    &&& final(self)@ == if mark_completed && sends[quote_id@].state is Confirmed {
                        old(self)@.put(StateRow::SendCompleted { quote_id: quote_id@ })
                    } else {
                        old(self)@
                    }
                } else {
                    response is None && final(self)@ == old(self)@
                }
            }),
    {
        match self.state_store.get_send(quote_id) {
            Some(send) => Some(self.onchain_send_response(quote_id, &send, mark_completed)),
            None => None,
        }
    }

    /// Tells the mint that a confirmed payment succeeded, given what parsing the id of its quote
    /// gave.
    pub fn report_send(
        &mut self,
        quote_id: &str,
        send: &OnchainSendIntentRecord,
        parsed: &Result<String, String>,
    ) -> (r: Result<PaymentEvent, PaymentError>)
        ensures
            match result_text(*parsed) {
                Err(e) => r matches Err(f) && f@ == bad_quote_id(quote_id@, e) && final(self)@
                    == old(self)@,
                Ok(id) => r matches Ok(news) && news@ == (News::Successful {
                    quote_id: id,
                    details: send_response(id, send@),
                }) && final(self)@ == old(self)@.put(
                    StateRow::SendCompleted { quote_id: quote_id@ },
                ),
            },
    {
        match parsed {
            Err(e) => Err(bad_quote_id_error(quote_id, e.as_str())),
            Ok(id) => {
                self.state_store.mark_send_completed(quote_id);
                let details = self.onchain_send_response(id.as_str(), send, false);
                Ok(PaymentEvent::PaymentSuccessful { quote_id: id.clone(), details })
            },
        }
    }

    /// Tells the mint of the first confirmed payment that it has not been told of, if there is one.
    pub fn next_onchain_send_event(&mut self) -> (r: Result<Option<PaymentEvent>, PaymentError>)
        ensures
            match next_confirmed(old(self)@.store.state) {
                None => r matches Ok(None) && final(self)@ == old(self)@,
                Some((quote_id, send)) => match quote_id_parsed(quote_id) {
                    Err(e) => r matches Err(f) && f@ == bad_quote_id(quote_id, e) && final(self)@
                        == old(self)@,
                    Ok(id) => r matches Ok(Some(news)) && news@ == (News::Successful {
                        quote_id: id,
                        details: send_response(id, send),
                    }) && final(self)@ == old(self)@.put(StateRow::SendCompleted { quote_id }),
                },
            },
    {
        let sends = self.state_store.sends();
        let ghost state = self@.store.state;
        let ghost rows = rows_of(state.sends);
        let ghost wanted = |row: (Seq<char>, SendIntent)|
            !state.completed_sends.contains(row.0) && row.1.state is Confirmed;
        let mut i: usize = 0;
        while i < sends.len()
            invariant
                self@ == old(self)@,
                state == self@.store.state,
                rows == rows_of(state.sends),
                sends_view(sends@) == rows,
                wanted == (|row: (Seq<char>, SendIntent)|
                    !state.completed_sends.contains(row.0) && row.1.state is Confirmed),
                i <= sends@.len(),
                forall|j: int| 0 <= j < i ==> !wanted(#[trigger] rows[j]),
            decreases sends@.len() - i,
        {
            proof {
                assert(rows[i as int] == (sends@[i as int].0@, sends@[i as int].1@));
            }
            let confirmed = match &sends[i].1.state {
                OnchainSendIntentState::Confirmed { .. } => true,
                _ => false,
            };
            if confirmed && !self.state_store.is_send_completed(sends[i].0.as_str()) {
                proof {
                    lemma_first_is(rows, wanted, i as int);
                }
                let parsed = parse_quote_id(sends[i].0.as_str());
                return match self.report_send(sends[i].0.as_str(), &sends[i].1, &parsed) {
                    Ok(news) => Ok(Some(news)),
                    Err(e) => Err(e),
                };
            }
            i += 1;
        }
        proof {
            lemma_no_first(rows, wanted);
        }
        Ok(None)
    }
}

/// A payment is told to be paid exactly when it is confirmed, and never to be unpaid: the mint
/// does not give the money back while the payment may still happen.
pub proof fn law_onchain_status_is_cautious(quote_id: Seq<char>, send: SendIntent)
    ensures
        (send_response(quote_id, send).status == MeltQuoteState::Paid) == (send.state is Confirmed),
        send_response(quote_id, send).status != MeltQuoteState::Unpaid,
{
}

/// A confirmed payment, and one that somebody has to look at, are left alone by reconciling; and
/// none changes its quote, its address or its amount.
pub proof fn law_settled_sends_stay(send: SendIntent, confirmed: Seq<Seq<char>>, now: u64)
    ensures
        send.state is Confirmed || send.state is NeedsReview ==> reconciliation(
            send,
            confirmed,
            now,
        ) == Ok::<Option<SendIntent>, Failure>(None),
        reconciliation(send, confirmed, now) matches Ok(Some(next)) ==> next.quote_id
            == send.quote_id && next.address == send.address && next.amount_sat == send.amount_sat,
{
}

/// The mint is told of a confirmed payment at most once.
pub proof fn law_send_told_once(state: ArkState, quote_id: Seq<char>, row: StateRow)
    requires
        state.completed_sends.contains(quote_id),
    ensures
        next_confirmed(state) matches Some(found) ==> found.0 != quote_id,
        state.written(row).completed_sends.contains(quote_id),
{
    let wanted = |row: (Seq<char>, SendIntent)|
        !state.completed_sends.contains(row.0) && row.1.state is Confirmed;
    lemma_found(rows_of(state.sends), wanted);
}

/// Success is told of a payment that is on record and confirmed and was not told before, the first
/// of them; and nothing is told only where every confirmed payment was.
pub proof fn law_success_is_told_of_confirmed_payments(state: ArkState)
    requires
        state.is_sound(),
    ensures
        match next_confirmed(state) {
            Some((q, send)) => {
                &&& state.sends.dom().contains(q) && state.sends[q] == send
                &&& send.state is Confirmed
                &&& !state.completed_sends.contains(q)
                &&& forall|k: Seq<char>| #[trigger]
                    state.sends.dom().contains(k) && state.sends[k].state is Confirmed
                        && !state.completed_sends.contains(k) ==> k == q || precedes(q, k)
            },
            None => forall|k: Seq<char>| #[trigger]
                state.sends.dom().contains(k) && state.sends[k].state is Confirmed
                    ==> state.completed_sends.contains(k),
        },
{
    let wanted = |row: (Seq<char>, SendIntent)|
        !state.completed_sends.contains(row.0) && row.1.state is Confirmed;
    lemma_first_row(state.sends, wanted);
}

/// What the mint is told of a success is that the payment was made: the transaction is the proof,
/// and what was spent is the amount and the fee.
pub proof fn law_success_tells_what_was_spent(state: ArkState, lookup: Seq<char>)
    requires
        state.is_sound(),
    ensures
        next_confirmed(state) matches Some((q, send)) ==> {
            let details = send_response(lookup, send);
            &&& details.status == MeltQuoteState::Paid
            &&& details.proof_text == Some(send.state->Confirmed_txid)
            &&& send.amount_sat + send.state->Confirmed_fee_sat <= u64::MAX
                ==> details.total_spent_sat == send.amount_sat + send.state->Confirmed_fee_sat
        },
{
    law_success_is_told_of_confirmed_payments(state);
}

/// What the mint is told of a payment names the quote. The transaction is told once there is one,
/// and something is said to be spent only once the payment is confirmed: never less than the
/// amount.
pub proof fn law_send_is_told_as_it_is(quote_id: Seq<char>, send: SendIntent)
    ensures
        ({
            let told = send_response(quote_id, send);
            &&& told.lookup_id == Identifier::QuoteId(quote_id)
            &&& send.state matches SendState::Broadcast { txid, .. } ==> told.proof_text
                == Some(txid)
            &&& send.state matches SendState::Confirmed { txid, fee_sat, .. } ==> told.proof_text
                == Some(txid) && told.total_spent_sat >= send.amount_sat && told.total_spent_sat
                >= fee_sat && (send.amount_sat + fee_sat <= u64::MAX ==> told.total_spent_sat
                - fee_sat == send.amount_sat)
            &&& !(send.state is Confirmed) ==> told.total_spent_sat == 0
            &&& send.state is Attempting || send.state is NeedsReview ==> told.proof_text is None
        }),
{
}

/// A broadcast payment becomes confirmed exactly when its transaction is among the confirmed ones,
/// with its transaction and its fee. An attempt is put up for review exactly when it is a minute
/// old, with its fee. Only a broadcast payment whose transaction id cannot be read fails.
pub proof fn law_reconciling_follows_the_chain(
    send: SendIntent,
    confirmed: Seq<Seq<char>>,
    now: u64,
)
    ensures
        ({
            let r = reconciliation(send, confirmed, now);
            &&& send.state matches SendState::Broadcast { txid, fee_sat, .. } ==> match txid_parsed(
                txid,
            ) {
                Ok(t) => if confirmed.contains(t) {
                    r matches Ok(Some(n)) && n.state == (SendState::Confirmed {
                        txid,
                        fee_sat,
                        confirmed_at: now,
                    })
                } else {
                    r matches Ok(None)
                },
                Err(_) => r is Err,
            }
            &&& send.state matches SendState::Attempting { fee_sat, started_at, .. } ==> r is Ok && (
            started_at + 60 <= u64::MAX ==> (r->Ok_0 is Some <==> started_at + 60 <= now)) && (
            r matches Ok(Some(n)) ==> n.state is NeedsReview && n.state->NeedsReview_fee_sat
                == Some(fee_sat) && n.state->NeedsReview_failed_at == now)
            &&& r is Err ==> send.state is Broadcast
            &&& r matches Ok(Some(n)) ==> n.state is Confirmed || n.state is NeedsReview
        }),
{
}

proof fn lemma_rows_reconciled(
    store: StoreView,
    rows: Seq<(Seq<char>, SendIntent)>,
    confirmed: Seq<Seq<char>>,
    now: u64,
)
    requires
        forall|i: int, j: int|
            0 <= i < j < rows.len() ==> (#[trigger] rows[i]).0 != (#[trigger] rows[j]).0,
        sends_reconciled(store, rows, confirmed, now).1 is Ok,
    ensures
        ({
            let after = sends_reconciled(store, rows, confirmed, now).0.state;
            &&& after == (ArkState { sends: after.sends, ..store.state })
            &&& forall|i: int|
                0 <= i < rows.len() ==> match reconciliation((#[trigger] rows[i]).1, confirmed, now) {
                    Ok(Some(n)) => after.sends.dom().contains(rows[i].0) && after.sends[rows[i].0]
                        == n,
                    Ok(None) => after.sends.dom().contains(rows[i].0)
                        == store.state.sends.dom().contains(rows[i].0) && after.sends[rows[i].0]
                        == store.state.sends[rows[i].0],
                    Err(_) => false,
                }
            &&& forall|k: Seq<char>|
                (forall|i: int| 0 <= i < rows.len() ==> (#[trigger] rows[i]).0 != k)
                    ==> #[trigger] after.sends.dom().contains(k)
                    == store.state.sends.dom().contains(k) && after.sends[k]
                    == store.state.sends[k]
        }),
    decreases rows.len(),
{
    if rows.len() > 0 {
        let front = rows.drop_last();
        assert forall|i: int, j: int| 0 <= i < j < front.len() implies (#[trigger] front[i]).0 != (
        #[trigger] front[j]).0 by {
            assert(front[i] == rows[i] && front[j] == rows[j]);
        }
        lemma_rows_reconciled(store, front, confirmed, now);
        let before = sends_reconciled(store, front, confirmed, now).0.state;
        let after = sends_reconciled(store, rows, confirmed, now).0.state;
        let last = rows.len() - 1;
        assert(rows.last() == rows[last]);
        assert forall|i: int| 0 <= i < front.len() implies (#[trigger] front[i]).0 != rows[last].0 by {
            assert(front[i] == rows[i]);
        }
        assert(after == (ArkState { sends: after.sends, ..store.state }));
        assert forall|i: int| 0 <= i < rows.len() implies match reconciliation(
            (#[trigger] rows[i]).1,
            confirmed,
            now,
        ) {
            Ok(Some(n)) => after.sends.dom().contains(rows[i].0) && after.sends[rows[i].0] == n,
            Ok(None) => after.sends.dom().contains(rows[i].0) == store.state.sends.dom().contains(
                rows[i].0,
            ) && after.sends[rows[i].0] == store.state.sends[rows[i].0],
            Err(_) => false,
        } by {
            if i < last {
                assert(front[i] == rows[i]);
            } else {
                assert(before.sends.dom().contains(rows[last].0)
                    == store.state.sends.dom().contains(rows[last].0));
            }
        }
        assert forall|k: Seq<char>|
            (forall|i: int| 0 <= i < rows.len() ==> (#[trigger] rows[i]).0
                != k) implies #[trigger] after.sends.dom().contains(k)
            == store.state.sends.dom().contains(k) && after.sends[k] == store.state.sends[k] by {
            assert forall|i: int| 0 <= i < front.len() implies (#[trigger] front[i]).0 != k by {
                assert(front[i] == rows[i]);
            }
            assert(rows[last].0 != k);
            assert(before.sends.dom().contains(k) == store.state.sends.dom().contains(k));
        }
    }
}

/// A reconciliation that goes well reaches every payment and adds none: a broadcast payment is
/// confirmed after it exactly when its transaction is, and everything else is as it was but for
/// attempts that are put up for review. No other table changes.
pub proof fn law_every_payment_is_reconciled(
    store: StoreView,
    confirmed: Seq<Seq<char>>,
    now: u64,
    q: Seq<char>,
)
    requires
        store.state.is_sound(),
        sends_reconciled(store, rows_of(store.state.sends), confirmed, now).1 is Ok,
    ensures
        ({
            let before = store.state.sends;
            let after = sends_reconciled(store, rows_of(before), confirmed, now).0.state;
            &&& after == (ArkState { sends: after.sends, ..store.state })
            &&& after.sends.dom().contains(q) == before.dom().contains(q)
            &&& before.dom().contains(q) && before[q].state is Broadcast ==> (
            after.sends[q].state is Confirmed <==> (txid_parsed(before[q].state->Broadcast_txid)
                matches Ok(t) && confirmed.contains(t)))
            &&& before.dom().contains(q) && !(before[q].state is Broadcast)
                && !(before[q].state is Attempting) ==> after.sends[q] == before[q]
            &&& before.dom().contains(q) && before[q].state is Attempting ==> after.sends[q]
                == before[q] || after.sends[q].state is NeedsReview
        }),
{
    let before = store.state.sends;
    let rows = rows_of(before);
    crate::order::lemma_key_order(before);
    let keys = crate::order::key_order(before);
    assert forall|i: int, j: int| 0 <= i < j < rows.len() implies (#[trigger] rows[i]).0 != (
    #[trigger] rows[j]).0 by {
        assert(precedes(keys[i], keys[j]));
        crate::order::lemma_before_one_way(keys[i], keys[j]);
    }
    lemma_rows_reconciled(store, rows, confirmed, now);
    let after = sends_reconciled(store, rows, confirmed, now).0.state;
    if before.dom().contains(q) {
        assert(keys.contains(q));
        let i = choose|i: int| 0 <= i < keys.len() && keys[i] == q;
        assert(rows[i] == (q, before[q]));
        law_reconciling_follows_the_chain(before[q], confirmed, now);
        law_settled_sends_stay(before[q], confirmed, now);
    } else {
        assert forall|i: int| 0 <= i < rows.len() implies (#[trigger] rows[i]).0 != q by {
            assert(keys.contains(keys[i]));
        }
        assert(after.sends.dom().contains(q) == before.dom().contains(q));
    }
}

/// Whatever was read of the transaction id of a broadcast payment decides: where it could not be
/// read the payment cannot be reconciled, where it names a confirmed transaction the payment is
/// confirmed under the id on record, and else nothing changes. It stays the same payment.
pub proof fn law_what_was_read_decides(
    send: SendIntent,
    txid: Result<Seq<char>, Seq<char>>,
    confirmed: Seq<Seq<char>>,
    now: u64,
)
    ensures
        ({
            let r = reconciled_with(send, txid, confirmed, now);
            &&& send.state matches SendState::Broadcast { txid: stored, fee_sat, .. } ==> match txid {
                Err(_) => r is Err,
                Ok(t) => {
                    &&& !confirmed.contains(t) ==> (r matches Ok(None))
                    &&& confirmed.contains(t) ==> (r matches Ok(Some(n)) && n.state == (
                    SendState::Confirmed { txid: stored, fee_sat, confirmed_at: now }))
                },
            }
            &&& send.state is Confirmed || send.state is NeedsReview ==> (r matches Ok(None))
            &&& r matches Ok(Some(n)) ==> n == (SendIntent { state: n.state, ..send })
        }),
{
}

/// A transaction id on record that cannot be read is named with what was said of it.
pub proof fn law_unread_txid_is_named(stored: Seq<char>, error: Seq<char>)
    ensures
        bad_txid(stored, error) == Failure::Custom(
            "Invalid stored offboard txid "@ + stored + ": "@ + error,
        ),
{
}

/// Reconciling goes on to the last payment unless one of them cannot be reconciled. It then ends at
/// the first of these, with its failure, and with what was written before.
pub proof fn law_reconciling_ends_at_the_first_failure(
    store: StoreView,
    rows: Seq<(Seq<char>, SendIntent)>,
    confirmed: Seq<Seq<char>>,
    now: u64,
)
    ensures
        sends_reconciled(store, rows, confirmed, now).1 is Ok <==> forall|i: int|
            0 <= i < rows.len() ==> reconciliation((#[trigger] rows[i]).1, confirmed, now) is Ok,
        sends_reconciled(store, rows, confirmed, now).1 matches Err(e) ==> exists|i: int|
            0 <= i < rows.len() && reconciliation((#[trigger] rows[i]).1, confirmed, now) == Err::<
                Option<SendIntent>,
                Failure,
            >(e) && sends_reconciled(store, rows.take(i), confirmed, now) == (
                sends_reconciled(store, rows, confirmed, now).0,
                Ok::<(), Failure>(()),
            ),
    decreases rows.len(),
{
    if rows.len() > 0 {
        let front = rows.drop_last();
        let last = rows.len() - 1;
        law_reconciling_ends_at_the_first_failure(store, front, confirmed, now);
        assert(rows.last() == rows[last]);
        assert(rows.take(last) =~= front);
        match sends_reconciled(store, front, confirmed, now).1 {
            Err(e) => {
                let i = choose|i: int|
                    0 <= i < front.len() && reconciliation(
                        (#[trigger] front[i]).1,
                        confirmed,
                        now,
                    ) == Err::<Option<SendIntent>, Failure>(e) && sends_reconciled(
                        store,
                        front.take(i),
                        confirmed,
                        now,
                    ) == (sends_reconciled(store, front, confirmed, now).0, Ok::<(), Failure>(()));
                assert(front.take(i) =~= rows.take(i));
                assert(rows[i] == front[i]);
            },
            Ok(_) => {
                assert forall|i: int| 0 <= i < last implies reconciliation(
                    (#[trigger] rows[i]).1,
                    confirmed,
                    now,
                ) is Ok by {
                    assert(rows[i] == front[i]);
                }
            },
        }
    }
}

/// A payment that somebody has to look at says why: its attempt was interrupted.
pub proof fn law_interrupted_send_says_why(
    send: SendIntent,
    confirmed: Seq<Seq<char>>,
    now: u64,
)
    ensures
        send.state is Attempting ==> (reconciliation(send, confirmed, now) matches Ok(Some(n))
            ==> n.state->NeedsReview_reason
            == "Interrupted during Bark send_onchain; pending offboards are not exposed by the public Bark API for automatic recovery"@),
{
}

} // verus!
