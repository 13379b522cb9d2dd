//! Lightning payments going out. As on chain, a payment is written down before the wallet is asked
//! to make it, and a quote or a payment hash that has a payment is answered from it.

use crate::adapters::{
    hex_decode, hex_encode, hex_error, hex_text, law_hex_reads_back, new_attempt_id,
    parse_quote_id, quote_id_parsed, result_text, unhex,
};
use crate::ark_backend::{ArkBackend, SEND_ATTEMPT_REVIEW_SECS};
use crate::ark_store::{
    lightning_send_for, lightning_sends_view, ArkState, StateRow, StoreView,
};
use crate::boarding::more;
use crate::intents::{
    LightningSend, LightningSendIntentRecord, LightningSendIntentState, LightningState,
};
use crate::payment::{
    Failure, Identifier, MakePaymentResponse, MeltQuoteState, News, PaymentError, PaymentEvent,
    PaymentIdentifier, PaymentQuote, PaymentQuoteResponse, Sent,
};
use crate::receives::{bad_quote_id, bad_quote_id_error};
use crate::order::precedes;
use crate::seqs::{
    first_where, lemma_first_is, lemma_first_row, lemma_found, lemma_no_first, rows_of,
};
use crate::text::{cat2, cat4, cat5, decimal, u64_text};
use vstd::prelude::*;

verus! {

// ---- amounts and hashes ---------------------------------------------------------------------

/// The fee that is reserved for a Lightning payment: a thousandth, and at least one.
pub open spec fn lightning_fee(amount_sat: u64) -> u64 {
    if amount_sat / 1000 > 1 {
        amount_sat / 1000
    } else {
        1
    }
}

/// Computes the fee that is reserved for a Lightning payment.
pub fn estimated_lightning_fee_sat(amount_sat: u64) -> (fee: u64)
    ensures
        fee == lightning_fee(amount_sat),
{
    if amount_sat / 1000 > 1 {
        amount_sat / 1000
    } else {
        1
    }
}

/// The payment hash that a stored text stands for: 32 bytes in hex.
pub open spec fn stored_hash(text: Seq<char>) -> Result<Seq<u8>, Failure> {
    match unhex(text) {
        None => Err(
            Failure::Custom("Invalid stored payment hash "@ + text + ": "@ + hex_error(text)),
        ),
        Some(bytes) => if bytes.len() == 32 {
            Ok(bytes)
        } else {
            Err(
                Failure::Custom(
                    "Invalid stored payment hash length "@ + decimal(bytes.len()),
                ),
            )
        },
    }
}

/// Reads a stored payment hash.
pub fn parse_payment_hash_hex(payment_hash: &str) -> (r: Result<Vec<u8>, PaymentError>)
    ensures
        (match r {
            Ok(bytes) => Ok(bytes@),
            Err(e) => Err(e@),
        }) == stored_hash(payment_hash@),
{
    match hex_decode(payment_hash) {
        Err(e) => Err(
            PaymentError::Custom(
                cat4("Invalid stored payment hash ", payment_hash, ": ", e.as_str()),
            ),
        ),
        Ok(bytes) => if bytes.len() == 32 {
            Ok(bytes)
        } else {
            Err(
                PaymentError::Custom(
                    cat2(
                        "Invalid stored payment hash length ",
                        u64_text(bytes.len() as u64).as_str(),
                    ),
                ),
            )
        },
    }
}

// ---- what the wallet says of a payment ------------------------------------------------------

/// What the wallet says of a Lightning payment.
#[derive(Debug)]
pub enum LightningStatus {
    Paid { preimage: Vec<u8> },
    InProgress { amount_sat: u64, fee_sat: u64 },
    Unknown,
}

/// What a [`LightningStatus`] says.
pub enum WalletStatus {
    Paid { preimage: Seq<u8> },
    InProgress { amount_sat: u64, fee_sat: u64 },
    Unknown,
}

impl View for LightningStatus {
    type V = WalletStatus;

    open spec fn view(&self) -> WalletStatus {
        match self {
            LightningStatus::Paid { preimage } => WalletStatus::Paid { preimage: preimage@ },
            LightningStatus::InProgress { amount_sat, fee_sat } => WalletStatus::InProgress {
                amount_sat: *amount_sat,
                fee_sat: *fee_sat,
            },
            LightningStatus::Unknown => WalletStatus::Unknown,
        }
    }
}

/// What the wallet says, or why it cannot.
pub open spec fn status_result(r: Result<LightningStatus, String>) -> Result<
    WalletStatus,
    Seq<char>,
> {
    match r {
        Ok(s) => Ok(s@),
        Err(e) => Err(e@),
    }
}

/// A payment, brought up to date with what the wallet says of it.
pub open spec fn updated_send(send: LightningSend, status: WalletStatus, now: u64) -> LightningSend {
    match status {
        WalletStatus::Paid { preimage } => LightningSend {
            state: LightningState::Paid {
                fee_sat: send.estimated_fee_sat,
                preimage: hex_text(preimage),
                paid_at: now,
            },
            ..send
        },
        WalletStatus::InProgress { amount_sat, fee_sat } => LightningSend {
            amount_sat,
            state: LightningState::Pending { fee_sat, started_at: now },
            ..send
        },
        WalletStatus::Unknown => send,
    }
}

/// Brings a payment up to date with what the wallet says of it.
pub fn lightning_intent_from_bark_send(
    intent: LightningSendIntentRecord,
    status: &LightningStatus,
    now: u64,
) -> (out: LightningSendIntentRecord)
    ensures
        out@ == updated_send(intent@, status@, now),
{
    match status {
        LightningStatus::Paid { preimage } => {
            let fee_sat: u64 = intent.estimated_fee_sat;
            LightningSendIntentRecord {
                state: LightningSendIntentState::Paid {
                    fee_sat,
                    preimage: hex_encode(preimage),
                    paid_at: now,
                },
                ..intent
            }
        },
        LightningStatus::InProgress { amount_sat, fee_sat } => LightningSendIntentRecord {
            amount_sat: *amount_sat,
            state: LightningSendIntentState::Pending { fee_sat: *fee_sat, started_at: now },
            ..intent
        },
        LightningStatus::Unknown => intent,
    }
}

/// What is noted of a payment whose attempt ended without an outcome.
pub open spec fn interrupted_payment(error: Seq<char>) -> Seq<char> {
    "Interrupted during Bark pay_lightning_invoice and no recoverable send state was found: "@
        + error
}

/// What reconciling gives for a payment, and whether it is written: what the wallet says; or,
/// where it cannot say, a note that somebody has to look once an attempt is old.
pub open spec fn reconciled_payment(
    send: LightningSend,
    status: Result<WalletStatus, Seq<char>>,
    now: u64,
) -> (LightningSend, bool) {
    match status {
        Ok(s) => (updated_send(send, s, now), true),
        Err(e) => match send.state {
            LightningState::Attempting { started_at, .. } if more(
                started_at,
                SEND_ATTEMPT_REVIEW_SECS,
            ) <= now => (
                LightningSend {
                    state: LightningState::NeedsReview {
                        reason: interrupted_payment(e),
                        failed_at: now,
                    },
                    ..send
                },
                true,
            ),
            _ => (send, false),
        },
    }
}

/// What the mint is told of a Lightning payment.
pub open spec fn payment_response(send: LightningSend, lookup_id: Identifier) -> Sent {
    let (status, proof_text, total_spent_sat) = match send.state {
        LightningState::Paid { fee_sat, preimage, .. } => (
            MeltQuoteState::Paid,
            Some(preimage),
            more(send.amount_sat, fee_sat),
        ),
        LightningState::Failed { .. } => (MeltQuoteState::Unpaid, None, 0u64),
        _ => (MeltQuoteState::Pending, None, 0u64),
    };
    Sent { lookup_id, proof_text, status, total_spent_sat }
}

/// Whether a row of the payments is the one to tell the mint of: it was not told, and it has an
/// outcome or cannot be told because of its quote id.
pub open spec fn is_tellable(
    state: ArkState,
    row: (Seq<char>, LightningSend),
) -> bool {
    !state.completed_lightning_sends.contains(row.0) && (quote_id_parsed(row.1.quote_id) is Err
        || row.1.state is Paid || row.1.state is Failed)
}

/// The first payment to tell the mint of.
pub open spec fn next_payment(state: ArkState) -> Option<(Seq<char>, LightningSend)> {
    first_where(
        rows_of(state.lightning_sends),
        |row: (Seq<char>, LightningSend)| is_tellable(state, row),
    )
}

impl ArkBackend {
    /// The hash to ask the wallet for in order to reconcile the payment under a stored hash, if
    /// there is such a payment.
    pub fn reconcile_target(&self, payment_hash_hex: &str) -> (r: Result<
        Option<Vec<u8>>,
        PaymentError,
    >)
        ensures
            if self@.store.state.lightning_sends.dom().contains(payment_hash_hex@) {
                match stored_hash(payment_hash_hex@) {
                    Ok(bytes) => r matches Ok(Some(h)) && h@ == bytes,
                    Err(f) => r matches Err(e) && e@ == f,
                }
            } else {
                r matches Ok(None)
            },
    {
        if self.state_store.get_lightning_send(payment_hash_hex).is_none() {
            return Ok(None);
        }
        match parse_payment_hash_hex(payment_hash_hex) {
            Ok(bytes) => Ok(Some(bytes)),
            Err(e) => Err(e),
        }
    }

    /// Reconciles the payment under a stored hash with what the wallet says of it, and returns it.
    pub fn reconcile_lightning_send(
        &mut self,
        payment_hash_hex: &str,
        status: &Result<LightningStatus, String>,
        now: u64,
    ) -> (r: Option<LightningSendIntentRecord>)
        ensures
            ({
                let sends = old(self)@.store.state.lightning_sends;
                if sends.dom().contains(payment_hash_hex@) {
                    let (next, write) = reconciled_payment(
                        sends[payment_hash_hex@],
                        status_result(*status),
                        now,
                    );
                    &&& r matches Some(send) && send@ == next
                    &&& final(self)@ == if write {
                        old(self)@.put(
                            StateRow::LightningSend {
                                payment_hash: payment_hash_hex@,
                                payment: next,
                            },
                        )
                    } else {
                        old(self)@
                    }
                } else {
                    r is None && final(self)@ == old(self)@
                }
            }),
    {
        let intent = match self.state_store.get_lightning_send(payment_hash_hex) {
            Some(i) => i,
            None => {
                return None;
            },
        };
        match status {
            Ok(s) => {
                let updated = lightning_intent_from_bark_send(intent, s, now);
                self.state_store.put_lightning_send(payment_hash_hex, &updated);
                Some(updated)
            },
            Err(e) => {
                let stale = match &intent.state {
                    LightningSendIntentState::Attempting { started_at, .. } => {
                        started_at.saturating_add(SEND_ATTEMPT_REVIEW_SECS) <= now
                    },
                    _ => false,
                };
                if !stale {
                    return Some(intent);
                }
                let updated = LightningSendIntentRecord {
                    state: LightningSendIntentState::NeedsReview {
                        reason: cat2(
                            "Interrupted during Bark pay_lightning_invoice and no recoverable send state was found: ",
                            e.as_str(),
                        ),
                        failed_at: now,
                    },
                    ..intent
                };
                self.state_store.put_lightning_send(payment_hash_hex, &updated);
                Some(updated)
            },
        }
    }

    /// What the mint is told of a Lightning payment. A paid one is noted as told, where the caller
    /// settles it.
    pub fn lightning_send_response_with_lookup(
        &mut self,
        send: &LightningSendIntentRecord,
        mark_completed: bool,
        payment_lookup_id: PaymentIdentifier,
    ) -> (response: MakePaymentResponse)
        ensures
            response@ == payment_response(send@, payment_lookup_id@),
            final(self)@ == if mark_completed && send@.state is Paid {
                old(self)@.put(
                    StateRow::LightningSendCompleted { payment_hash: send@.payment_hash },
                )
            } else {
                old(self)@
            },
    {
        let (status, payment_proof, total_spent_sat) = match &send.state {
            LightningSendIntentState::Paid { fee_sat, preimage, .. } => {
                if mark_completed {
                    self.state_store.mark_lightning_send_completed(send.payment_hash.as_str());
                }
                (
                    MeltQuoteState::Paid,
                    Some(preimage.clone()),
                    send.amount_sat.saturating_add(*fee_sat),
                )
            },
            LightningSendIntentState::Failed { .. } => (MeltQuoteState::Unpaid, None, 0),
            _ => (MeltQuoteState::Pending, None, 0),
        };
        MakePaymentResponse { payment_lookup_id, payment_proof, status, total_spent_sat }
    }

    /// Tells the mint the outcome of a payment, given what parsing the id of its quote gave.
    pub fn report_lightning_send(
        &mut self,
        payment_hash: &str,
        send: &LightningSendIntentRecord,
        parsed: &Result<String, String>,
    ) -> (r: Result<Option<PaymentEvent>, PaymentError>)
        ensures
            match (result_text(*parsed), send@.state) {
                (Err(e), _) => r matches Err(f) && f@ == bad_quote_id(send@.quote_id, e)
                    && final(self)@ == old(self)@,
                (Ok(id), LightningState::Paid { .. }) => r matches Ok(Some(news)) && news@ == (
                News::Successful {
                    quote_id: id,
                    details: payment_response(send@, Identifier::QuoteId(id)),
                }) && final(self)@ == old(self)@.put(
                    StateRow::LightningSendCompleted { payment_hash: payment_hash@ },
                ),
                (Ok(id), LightningState::Failed { reason, .. }) => r matches Ok(Some(news))
                    && news@ == (News::Failed { quote_id: id, reason }) && final(self)@ == old(
                    self,
                )@.put(StateRow::LightningSendCompleted { payment_hash: payment_hash@ }),
                (Ok(_), _) => r matches Ok(None) && final(self)@ == old(self)@,
            },
    {
        let id = match parsed {
            Ok(id) => id.clone(),
            Err(e) => {
                return Err(bad_quote_id_error(send.quote_id.as_str(), e.as_str()));
            },
        };
        match &send.state {
            LightningSendIntentState::Paid { .. } => {
                self.state_store.mark_lightning_send_completed(payment_hash);
                let details = self.lightning_send_response_with_lookup(
                    send,
                    false,
                    PaymentIdentifier::QuoteId(id.clone()),
                );
                Ok(Some(PaymentEvent::PaymentSuccessful { quote_id: id, details }))
            },
            LightningSendIntentState::Failed { reason, .. } => {
                self.state_store.mark_lightning_send_completed(payment_hash);
                Ok(Some(PaymentEvent::PaymentFailed { quote_id: id, reason: reason.clone() }))
            },
            _ => Ok(None),
        }
    }

    /// Tells the mint of the first payment with an outcome that it has not been told of, if there
    /// is one. A payment before it whose quote id cannot be read ends the search.
    pub fn next_lightning_send_event(&mut self) -> (r: Result<Option<PaymentEvent>, PaymentError>)
        ensures
            match next_payment(old(self)@.store.state) {
                None => r matches Ok(None) && final(self)@ == old(self)@,
                Some((payment_hash, send)) => match (quote_id_parsed(send.quote_id), send.state) {
                    (Err(e), _) => r matches Err(f) && f@ == bad_quote_id(send.quote_id, e)
                        && final(self)@ == old(self)@,
                    (Ok(id), LightningState::Failed { reason, .. }) => r matches Ok(Some(news))
                        && news@ == (News::Failed { quote_id: id, reason }) && final(self)@
                        == old(self)@.put(StateRow::LightningSendCompleted { payment_hash }),
                    (Ok(id), _) => r matches Ok(Some(news)) && news@ == (News::Successful {
                        quote_id: id,
                        details: payment_response(send, Identifier::QuoteId(id)),
                    }) && final(self)@ == old(self)@.put(
                        StateRow::LightningSendCompleted { payment_hash },
                    ),
                },
            },
    {
        let sends = self.state_store.lightning_sends();
        let ghost state = self@.store.state;
        let ghost rows = rows_of(state.lightning_sends);
        let ghost wanted = |row: (Seq<char>, LightningSend)| is_tellable(state, row);
        let mut i: usize = 0;
        while i < sends.len()
            invariant
                self@ == old(self)@,
                state == self@.store.state,
                rows == rows_of(state.lightning_sends),
                lightning_sends_view(sends@) == rows,
                wanted == (|row: (Seq<char>, LightningSend)| is_tellable(state, row)),
                i <= sends@.len(),
                forall|j: int| 0 <= j < i ==> !wanted(#[trigger] rows[j]),
            decreases sends@.len() - i,
        {
            proof {
                assert(rows[i as int] == (sends@[i as int].0@, sends@[i as int].1@));
            }
            let hash = &sends[i].0;
            let send = &sends[i].1;
            if !self.state_store.is_lightning_send_completed(hash.as_str()) {
                let parsed = parse_quote_id(send.quote_id.as_str());
                let outcome = match &send.state {
                    LightningSendIntentState::Paid { .. } => true,
                    LightningSendIntentState::Failed { .. } => true,
                    _ => false,
                };
                if outcome || parsed.is_err() {
                    proof {
                        lemma_first_is(rows, wanted, i as int);
                    }
                    return self.report_lightning_send(hash.as_str(), send, &parsed);
                }
            }
            i += 1;
        }
        proof {
            lemma_no_first(rows, wanted);
        }
        Ok(None)
    }
}

// ---- making a payment -----------------------------------------------------------------------

/// A Lightning payment that the mint asks for.
pub struct LightningPaymentRequest {
    pub quote_id: String,
    pub payment_hash: Vec<u8>,
    pub invoice: String,
    pub amount_msat: Option<u64>,
    pub max_fee_sat: Option<u64>,
}

/// What a [`LightningPaymentRequest`] says.
pub struct LightningRequest {
    pub quote_id: Seq<char>,
    pub payment_hash: Seq<u8>,
    pub invoice: Seq<char>,
    pub amount_msat: Option<u64>,
    pub max_fee_sat: Option<u64>,
}

impl View for LightningPaymentRequest {
    type V = LightningRequest;

    open spec fn view(&self) -> LightningRequest {
        LightningRequest {
            quote_id: self.quote_id@,
            payment_hash: self.payment_hash@,
            invoice: self.invoice@,
            amount_msat: self.amount_msat,
            max_fee_sat: self.max_fee_sat,
        }
    }
}

/// What is said of an invoice without an amount.
pub open spec fn no_amount() -> Failure {
    Failure::Custom("Invoice has no amount"@)
}

/// What is said when a payment would cost more than it may.
pub open spec fn lightning_fee_too_high(fee_sat: u64, max_fee_sat: u64) -> Failure {
    Failure::Custom(
        "Estimated lightning fee "@ + decimal(fee_sat as nat) + " sat exceeds max fee "@ + decimal(
            max_fee_sat as nat,
        ) + " sat"@,
    )
}

/// The quote for a Lightning payment.
pub fn lightning_payment_quote(quote_id: &str, amount_msat: Option<u64>) -> (r: Result<
    PaymentQuoteResponse,
    PaymentError,
>)
    ensures
        match amount_msat {
            None => r matches Err(e) && e@ == no_amount(),
            Some(msat) => r matches Ok(quote) && quote@ == (PaymentQuote {
                lookup_id: Identifier::QuoteId(quote_id@),
                amount_sat: msat / 1000,
                fee_sat: lightning_fee(msat / 1000),
                state: MeltQuoteState::Unpaid,
                estimated_blocks: None,
                fee_option: None,
            }),
        },
{
    match amount_msat {
        None => Err(PaymentError::Custom("Invoice has no amount".to_owned())),
        Some(msat) => {
            let amount_sat: u64 = msat / 1000;
            Ok(
                PaymentQuoteResponse {
                    request_lookup_id: PaymentIdentifier::QuoteId(quote_id.to_owned()),
                    amount_sat,
                    fee_sat: estimated_lightning_fee_sat(amount_sat),
                    state: MeltQuoteState::Unpaid,
                    estimated_blocks: None,
                    fee_option: None,
                },
            )
        },
    }
}

/// A request that was accepted.
pub struct AcceptedLightning {
    request: LightningPaymentRequest,
    amount_sat: u64,
}

/// What an [`AcceptedLightning`] holds.
pub struct ToPay {
    pub request: LightningRequest,
    pub amount_sat: u64,
}

impl View for AcceptedLightning {
    type V = ToPay;

    closed spec fn view(&self) -> ToPay {
        ToPay { request: self.request@, amount_sat: self.amount_sat }
    }
}

/// The hash of the payment that answers a request, if one does: the first for its quote, or else
/// the one for its payment hash.
pub open spec fn existing_payment(state: ArkState, request: LightningRequest) -> Option<Seq<char>> {
    match lightning_send_for(state, request.quote_id) {
        Some((hash, _)) => Some(hash),
        None => if state.lightning_sends.dom().contains(hex_text(request.payment_hash)) {
            Some(hex_text(request.payment_hash))
        } else {
            None
        },
    }
}

/// How an accepted request goes on.
pub enum LightningStart {
    /// The payment under this hash answers it, once it is reconciled.
    Existing { payment_hash: String },
    /// There is no payment for it yet.
    Fresh(FreshLightning),
}

impl AcceptedLightning {
    /// Accepts a request, if its invoice has an amount and its fee is allowed.
    pub fn accept(request: LightningPaymentRequest) -> (r: Result<AcceptedLightning, PaymentError>)
        ensures
            match request@.amount_msat {
                None => r matches Err(e) && e@ == no_amount(),
                Some(msat) => match request@.max_fee_sat {
                    Some(max) if lightning_fee(msat / 1000) > max => r matches Err(e) && e@
                        == lightning_fee_too_high(lightning_fee(msat / 1000), max),
                    _ => r matches Ok(a) && a@.request == request@ && a@.amount_sat == msat / 1000,
                },
            },
    {
        let amount_sat: u64 = match request.amount_msat {
            Some(msat) => msat / 1000,
            None => {
                return Err(PaymentError::Custom("Invoice has no amount".to_owned()));
            },
        };
        let fee_sat: u64 = estimated_lightning_fee_sat(amount_sat);
        if let Some(max_fee_sat) = request.max_fee_sat {
            if fee_sat > max_fee_sat {
                return Err(
                    PaymentError::Custom(
                        cat5(
                            "Estimated lightning fee ",
                            u64_text(fee_sat).as_str(),
                            " sat exceeds max fee ",
                            u64_text(max_fee_sat).as_str(),
                            " sat",
                        ),
                    ),
                );
            }
        }
        Ok(AcceptedLightning { request, amount_sat })
    }

    /// Looks for the payment that answers the request.
    pub fn start(self, backend: &ArkBackend) -> (r: LightningStart)
        ensures
            match existing_payment(backend@.store.state, self@.request) {
                Some(hash) => r matches LightningStart::Existing { payment_hash } && payment_hash@
                    == hash,
                None => r matches LightningStart::Fresh(f) && f@ == self@,
            },
    {
        if let Some((payment_hash, _send)) = backend.state_store.lightning_send_for_quote(
            self.request.quote_id.as_str(),
        ) {
            return LightningStart::Existing { payment_hash };
        }
        let own = hex_encode(&self.request.payment_hash);
        if backend.state_store.get_lightning_send(own.as_str()).is_some() {
            return LightningStart::Existing { payment_hash: own };
        }
        LightningStart::Fresh(FreshLightning { accepted: self })
    }
}

/// A request for which there is no payment yet.
pub struct FreshLightning {
    accepted: AcceptedLightning,
}

impl View for FreshLightning {
    type V = ToPay;

    closed spec fn view(&self) -> ToPay {
        self.accepted@
    }
}

/// The payment that is written down before it is made.
pub open spec fn attempted_payment(
    to: ToPay,
    attempt_id: Seq<char>,
    started_at: u64,
) -> LightningSend {
    LightningSend {
        quote_id: to.request.quote_id,
        payment_hash: hex_text(to.request.payment_hash),
        invoice: to.request.invoice,
        amount_sat: to.amount_sat,
        estimated_fee_sat: lightning_fee(to.amount_sat),
        state: LightningState::Attempting { attempt: 1, attempt_id, started_at },
    }
}

impl FreshLightning {
    /// Writes the attempt down, under a given id.
    pub fn begin_as(self, backend: &mut ArkBackend, attempt_id: String, started_at: u64) -> (r:
        LightningAttempt)
        ensures
            r@ == attempted_payment(self@, attempt_id@, started_at),
            final(backend)@ == old(backend)@.put(
                StateRow::LightningSend { payment_hash: r@.payment_hash, payment: r@ },
            ),
    {
        let request = self.accepted.request;
        let payment_hash = hex_encode(&request.payment_hash);
        let amount_sat: u64 = self.accepted.amount_sat;
        let intent = LightningSendIntentRecord {
            quote_id: request.quote_id,
            payment_hash,
            invoice: request.invoice,
            amount_sat,
            estimated_fee_sat: estimated_lightning_fee_sat(amount_sat),
            state: LightningSendIntentState::Attempting { attempt: 1, attempt_id, started_at },
        };
        backend.state_store.put_lightning_send(intent.payment_hash.as_str(), &intent);
        LightningAttempt { intent }
    }

    /// Writes the attempt down, under a fresh id.
    pub fn begin(self, backend: &mut ArkBackend, started_at: u64) -> (r: LightningAttempt)
        ensures
            r@.state is Attempting,
            r@ == attempted_payment(self@, r@.state->Attempting_attempt_id, started_at),
            final(backend)@ == old(backend)@.put(
                StateRow::LightningSend { payment_hash: r@.payment_hash, payment: r@ },
            ),
    {
        let attempt_id = new_attempt_id();
        self.begin_as(backend, attempt_id, started_at)
    }
}

/// A payment that is written down and that the wallet has to make.
pub struct LightningAttempt {
    intent: LightningSendIntentRecord,
}

impl View for LightningAttempt {
    type V = LightningSend;

    closed spec fn view(&self) -> LightningSend {
        self.intent@
    }
}

impl LightningAttempt {
    /// The invoice to pay.
    pub fn invoice(&self) -> (invoice: &String)
        ensures
            invoice@ == self@.invoice,
    {
        &self.intent.invoice
    }

    /// Notes that the wallet took the payment, with what it says of it. Where it cannot say, the
    /// payment stays as it was written down.
    pub fn paid(
        self,
        backend: &mut ArkBackend,
        status: &Result<LightningStatus, String>,
        now: u64,
    ) -> (response: MakePaymentResponse)
        ensures
            ({
                let known = match status_result(*status) {
                    Ok(s) => s,
                    Err(_) => WalletStatus::Unknown,
                };
                let next = updated_send(self@, known, now);
                &&& response@ == payment_response(next, Identifier::QuoteId(self@.quote_id))
                &&& final(backend)@ == old(backend)@.put(
                    StateRow::LightningSend { payment_hash: self@.payment_hash, payment: next },
                )
            }),
    {
        let quote_id = self.intent.quote_id.clone();
        let payment_hash = self.intent.payment_hash.clone();
        let updated = match status {
            Ok(s) => lightning_intent_from_bark_send(self.intent, s, now),
            Err(_) => self.intent,
        };
        backend.state_store.put_lightning_send(payment_hash.as_str(), &updated);
        backend.lightning_send_response_with_lookup(
            &updated,
            false,
            PaymentIdentifier::QuoteId(quote_id),
        )
    }

    /// Notes that the wallet failed, with what it says of the payment now. Where it knows nothing
    /// of it, somebody has to look, and the quote is never paid again by itself.
    pub fn pay_failed(
        self,
        backend: &mut ArkBackend,
        reason: &str,
        status: &Result<LightningStatus, String>,
        now: u64,
    ) -> (e: PaymentError)
        ensures
            ({
                let next = match status_result(*status) {
                    Ok(s) if !(s is Unknown) => updated_send(self@, s, now),
                    _ => LightningSend {
                        state: LightningState::NeedsReview {
                            reason: "Bark pay_lightning_invoice returned an error after the payment attempt was started: "@
                                + reason@,
                            failed_at: now,
                        },
                        ..self@
                    },
                };
                &&& final(backend)@ == old(backend)@.put(
                    StateRow::LightningSend { payment_hash: self@.payment_hash, payment: next },
                )
                &&& e@ == Failure::Custom("Failed to pay invoice: "@ + reason@)
            }),
    {
        let payment_hash = self.intent.payment_hash.clone();
        let known = match status {
            Ok(LightningStatus::Unknown) => false,
            Ok(_) => true,
            Err(_) => false,
        };
        let base = self.intent;
        let next = match status {
            Ok(s) if known => lightning_intent_from_bark_send(base, s, now),
            _ => LightningSendIntentRecord {
                state: LightningSendIntentState::NeedsReview {
                    reason: cat2(
                        "Bark pay_lightning_invoice returned an error after the payment attempt was started: ",
                        reason,
                    ),
                    failed_at: now,
                },
                ..base
            },
        };
        backend.state_store.put_lightning_send(payment_hash.as_str(), &next);
        PaymentError::Custom(cat2("Failed to pay invoice: ", reason))
    }
}

/// No invoice is paid twice, and no quote: once an attempt is written down, a request with the same
/// quote or the same payment hash is answered from a payment.
pub proof fn law_invoice_is_paid_once(
    store: StoreView,
    to: ToPay,
    attempt_id: Seq<char>,
    started_at: u64,
    again: LightningRequest,
)
    requires
        store.state.lightning_sends.dom().finite(),
        again.quote_id == to.request.quote_id || again.payment_hash == to.request.payment_hash,
    ensures
        ({
            let send = attempted_payment(to, attempt_id, started_at);
            let after = store.put(
                StateRow::LightningSend { payment_hash: send.payment_hash, payment: send },
            );
            existing_payment(after.state, again) is Some
        }),
{
    let send = attempted_payment(to, attempt_id, started_at);
    let after = store.put(
        StateRow::LightningSend { payment_hash: send.payment_hash, payment: send },
    ).state;
    let m = after.lightning_sends;
    assert(m.dom().contains(send.payment_hash));
    if again.quote_id == to.request.quote_id {
        let rows = rows_of(m);
        let wanted = |row: (Seq<char>, LightningSend)| row.1.quote_id == again.quote_id;
        crate::order::lemma_key_order(m);
        let keys = crate::order::key_order(m);
        assert(keys.contains(send.payment_hash));
        let i = choose|i: int| 0 <= i < keys.len() && keys[i] == send.payment_hash;
        assert(rows[i] == (send.payment_hash, send));
        assert(wanted(rows[i]));
        lemma_found(rows, wanted);
    }
}

/// A Lightning payment, once written down, is never taken out again.
pub proof fn law_lightning_payments_are_kept(state: ArkState, payment_hash: Seq<char>, row: StateRow)
    requires
        state.lightning_sends.dom().contains(payment_hash),
    ensures
        state.written(row).lightning_sends.dom().contains(payment_hash),
{
}

/// A payment is told to be paid exactly when the wallet has its preimage, and to be unpaid exactly
/// when it failed: the mint does not give the money back while the payment may still happen.
pub proof fn law_lightning_status_is_cautious(send: LightningSend, lookup_id: Identifier)
    ensures
        (payment_response(send, lookup_id).status == MeltQuoteState::Paid) == (send.state is Paid),
        (payment_response(send, lookup_id).status == MeltQuoteState::Unpaid)
            == (send.state is Failed),
{
}

/// Reconciling never changes the quote, the payment hash or the invoice of a payment.
pub proof fn law_payment_stays_itself(
    send: LightningSend,
    status: Result<WalletStatus, Seq<char>>,
    now: u64,
)
    ensures
        ({
            let next = reconciled_payment(send, status, now).0;
            next.quote_id == send.quote_id && next.payment_hash == send.payment_hash
                && next.invoice == send.invoice
        }),
{
}

/// The mint is told the outcome of a Lightning payment at most once.
pub proof fn law_payment_told_once(state: ArkState, payment_hash: Seq<char>, row: StateRow)
    requires
        state.completed_lightning_sends.contains(payment_hash),
    ensures
        next_payment(state) matches Some(found) ==> found.0 != payment_hash,
        state.written(row).completed_lightning_sends.contains(payment_hash),
{
    let wanted = |row: (Seq<char>, LightningSend)| is_tellable(state, row);
    lemma_found(rows_of(state.lightning_sends), wanted);
}

/// Whatever state a payment on record is in, once the wallet says that it is paid it is paid, with
/// that preimage in hex and the fee that was reserved for it, and the mint is told so: that it is
/// paid, with the preimage as the proof, and the amount and the fee as spent.
pub proof fn law_paid_settles_a_payment(
    send: LightningSend,
    preimage: Seq<u8>,
    now: u64,
    lookup_id: Identifier,
)
    ensures
        ({
            let (next, write) = reconciled_payment(
                send,
                Ok(WalletStatus::Paid { preimage }),
                now,
            );
            let told = payment_response(next, lookup_id);
            &&& next == updated_send(send, WalletStatus::Paid { preimage }, now)
            &&& write
            &&& next.state is Paid && next.state->Paid_preimage == hex_text(preimage)
            &&& next.state->Paid_fee_sat == send.estimated_fee_sat && next.state->Paid_paid_at == now
            &&& next.amount_sat == send.amount_sat
            &&& told.status == MeltQuoteState::Paid
            &&& told.proof_text == Some(hex_text(preimage))
            &&& told.lookup_id == lookup_id
            &&& send.amount_sat + send.estimated_fee_sat <= u64::MAX ==> told.total_spent_sat
                == send.amount_sat + send.estimated_fee_sat
        }),
{
}

/// While the wallet says that a payment is in progress, it is pending, with the wallet's amount and
/// fee; where the wallet knows nothing of it, it stays as it is. Either way the mint is not told
/// that it is paid by that.
pub proof fn law_payment_in_progress_is_pending(
    send: LightningSend,
    amount_sat: u64,
    fee_sat: u64,
    now: u64,
    lookup_id: Identifier,
)
    ensures
        ({
            let going = updated_send(send, WalletStatus::InProgress { amount_sat, fee_sat }, now);
            let told = payment_response(going, lookup_id);
            &&& going.amount_sat == amount_sat
            &&& going.state == (LightningState::Pending { fee_sat, started_at: now })
            &&& going.estimated_fee_sat == send.estimated_fee_sat
            &&& told.status == MeltQuoteState::Pending && told.proof_text is None
                && told.total_spent_sat == 0
        }),
        updated_send(send, WalletStatus::Unknown, now) == send,
{
}

/// Where the wallet cannot say what became of a payment, an attempt is put up for review exactly
/// when it is a minute old, and every other payment stays as it is.
pub proof fn law_silence_is_reviewed(send: LightningSend, error: Seq<char>, now: u64)
    ensures
        ({
            let (next, write) = reconciled_payment(send, Err(error), now);
            &&& !(send.state is Attempting) ==> next == send && !write
            &&& send.state matches LightningState::Attempting { started_at, .. } ==> (started_at
                + 60 <= u64::MAX ==> (write <==> started_at + 60 <= now))
            &&& write ==> next.state is NeedsReview && next.state->NeedsReview_failed_at == now
                && next.amount_sat == send.amount_sat && next.estimated_fee_sat
                == send.estimated_fee_sat
            &&& !write ==> next == send
        }),
{
}

/// What the mint is told of a payment carries the identifier that was asked for. A preimage and a
/// sum are told of a paid payment alone: its own preimage, and the amount with the fee.
pub proof fn law_payment_is_told_as_it_is(send: LightningSend, lookup_id: Identifier)
    ensures
        ({
            let told = payment_response(send, lookup_id);
            &&& told.lookup_id == lookup_id
            &&& send.state matches LightningState::Paid { preimage, fee_sat, .. } ==> told.proof_text
                == Some(preimage) && told.total_spent_sat >= send.amount_sat && (send.amount_sat
                + fee_sat <= u64::MAX ==> told.total_spent_sat - fee_sat == send.amount_sat)
            &&& !(send.state is Paid) ==> told.proof_text is None && told.total_spent_sat == 0
        }),
{
}

/// The payment that the mint is told of next is on record, was not told before, and has an outcome
/// or a quote id that cannot be read; and it comes first among those. Where there is none, every
/// payment with an outcome was told.
pub proof fn law_outcome_is_told_of_settled_payments(state: ArkState)
    requires
        state.is_sound(),
    ensures
        match next_payment(state) {
            Some((hash, send)) => {
                &&& state.lightning_sends.dom().contains(hash) && state.lightning_sends[hash]
                    == send
                &&& !state.completed_lightning_sends.contains(hash)
                &&& quote_id_parsed(send.quote_id) is Ok ==> send.state is Paid
                    || send.state is Failed
                &&& forall|k: Seq<char>| #[trigger]
                    state.lightning_sends.dom().contains(k) && (state.lightning_sends[k].state is Paid
                        || state.lightning_sends[k].state is Failed)
                        && !state.completed_lightning_sends.contains(k) ==> k == hash || precedes(
                        hash,
                        k,
                    )
            },
            None => forall|k: Seq<char>| #[trigger]
                state.lightning_sends.dom().contains(k) && (state.lightning_sends[k].state is Paid
                    || state.lightning_sends[k].state is Failed)
                    ==> state.completed_lightning_sends.contains(k),
        },
{
    let wanted = |row: (Seq<char>, LightningSend)| is_tellable(state, row);
    lemma_first_row(state.lightning_sends, wanted);
    let m = state.lightning_sends;
    assert forall|k: Seq<char>| #[trigger]
        m.dom().contains(k) && (m[k].state is Paid || m[k].state is Failed)
            && !state.completed_lightning_sends.contains(k) implies wanted((k, m[k])) by {}
}

/// A request is answered from a payment on record exactly where there is one for its quote or for
/// its payment hash, and from one of those.
pub proof fn law_existing_payment_is_for_the_request(state: ArkState, request: LightningRequest)
    requires
        state.is_sound(),
    ensures
        match existing_payment(state, request) {
            Some(hash) => state.lightning_sends.dom().contains(hash) && (
            state.lightning_sends[hash].quote_id == request.quote_id || hash == hex_text(
                request.payment_hash,
            )),
            None => !state.lightning_sends.dom().contains(hex_text(request.payment_hash)) && forall|
                k: Seq<char>,
            | #[trigger]
                state.lightning_sends.dom().contains(k) ==> state.lightning_sends[k].quote_id
                    != request.quote_id,
        },
{
    let wanted = |row: (Seq<char>, LightningSend)| row.1.quote_id == request.quote_id;
    lemma_first_row(state.lightning_sends, wanted);
    assert(lightning_send_for(state, request.quote_id) == first_where(
        rows_of(state.lightning_sends),
        wanted,
    ));
    let m = state.lightning_sends;
    if existing_payment(state, request) is None {
        assert forall|k: Seq<char>| #[trigger] m.dom().contains(k) implies m[k].quote_id
            != request.quote_id by {
            assert(!wanted((k, m[k])));
        }
    }
}

/// A payment is written down as it was asked for: the quote, the payment hash in hex, the invoice,
/// the amount, and the fee that is reserved for it.
pub proof fn law_lightning_attempt_is_what_was_asked_for(
    to: ToPay,
    attempt_id: Seq<char>,
    started_at: u64,
)
    ensures
        ({
            let send = attempted_payment(to, attempt_id, started_at);
            &&& send.quote_id == to.request.quote_id
            &&& unhex(send.payment_hash) == Some(to.request.payment_hash)
            &&& send.invoice == to.request.invoice
            &&& send.amount_sat == to.amount_sat
            &&& send.estimated_fee_sat >= 1 && (to.amount_sat >= 1000 ==> send.estimated_fee_sat
                <= to.amount_sat)
            &&& send.state matches LightningState::Attempting {
                attempt,
                attempt_id: id,
                started_at: at,
            } && attempt == 1 && id == attempt_id && at == started_at
        }),
{
    law_hex_reads_back(to.request.payment_hash);
}

/// The fee that is reserved is a thousandth of the amount, rounded down, and never nothing.
pub proof fn law_reserved_fee_is_a_thousandth(amount_sat: u64)
    ensures
        lightning_fee(amount_sat) >= 1,
        lightning_fee(amount_sat) > 1 ==> lightning_fee(amount_sat) * 1000 <= amount_sat,
        amount_sat < (lightning_fee(amount_sat) + 1) * 1000,
{
}

/// A stored payment hash is read back as the 32 bytes that were written, and nothing of another
/// length is.
pub proof fn law_stored_hash_reads_back(hash: Seq<u8>, text: Seq<char>)
    ensures
        hash.len() == 32 ==> stored_hash(hex_text(hash)) == Ok::<Seq<u8>, Failure>(hash),
        hash.len() != 32 ==> stored_hash(hex_text(hash)) is Err,
        stored_hash(text) matches Ok(bytes) ==> bytes.len() == 32 && text.len() == 64,
{
    law_hex_reads_back(hash);
}

/// What a [`LightningStatus`] says is of its own kind, with what its fields hold.
pub proof fn law_lightning_status_says_what_it_holds(x: LightningStatus)
    ensures
        x is Paid <==> x@ is Paid,
        x matches LightningStatus::Paid { preimage } ==> {
            &&& x@ matches WalletStatus::Paid { preimage: said_preimage }
            &&& said_preimage == preimage@
        },
        x is InProgress <==> x@ is InProgress,
        x matches LightningStatus::InProgress { amount_sat, fee_sat } ==> {
            &&& x@ matches WalletStatus::InProgress {
                amount_sat: said_amount_sat,
                fee_sat: said_fee_sat,
            }
            &&& said_amount_sat == amount_sat
            &&& said_fee_sat == fee_sat
        },
        x is Unknown <==> x@ is Unknown,
{
}

/// What a [`LightningPaymentRequest`] says is what its fields hold, each under its own name.
pub proof fn law_lightning_payment_request_says_what_it_holds(x: LightningPaymentRequest)
    ensures
        x@.quote_id == x.quote_id@,
        x@.payment_hash == x.payment_hash@,
        x@.invoice == x.invoice@,
        x@.amount_msat == x.amount_msat,
        x@.max_fee_sat == x.max_fee_sat,
{
}

/// A refusal says why: an invoice has no amount, or the fee, which is named, exceeds the limit, which
/// is named too. A payment that was interrupted ends with what the wallet said.
pub proof fn law_lightning_refusals_say_why(fee_sat: u64, max_fee_sat: u64, error: Seq<char>)
    ensures
        no_amount() == Failure::Custom("Invoice has no amount"@),
        lightning_fee_too_high(fee_sat, max_fee_sat) == Failure::Custom(
            "Estimated lightning fee "@ + decimal(fee_sat as nat) + " sat exceeds max fee "@
                + decimal(max_fee_sat as nat) + " sat"@,
        ),
        error.is_suffix_of(interrupted_payment(error)),
{
    let text = interrupted_payment(error);
    assert(error =~= text.subrange(text.len() - error.len(), text.len() as int));
}

/// Whatever the wallet says of a payment is taken over and written. Where it says nothing of an old
/// attempt, the note ends with why it did not.
pub proof fn law_what_the_wallet_says_is_taken(
    send: LightningSend,
    status: WalletStatus,
    error: Seq<char>,
    now: u64,
)
    ensures
        reconciled_payment(send, Ok(status), now) == (updated_send(send, status, now), true),
        reconciled_payment(send, Err(error), now).1 ==> error.is_suffix_of(
            reconciled_payment(send, Err(error), now).0.state->NeedsReview_reason,
        ),
{
    law_lightning_refusals_say_why(0, 0, error);
}

} // verus!
