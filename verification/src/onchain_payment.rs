//! Making an on-chain payment, in stages: the request is accepted, the payment that may already
//! exist for its quote is looked for, the fee is estimated, the attempt is written down, and only
//! then is the wallet asked to send.

use crate::adapters::{address_parsed, nested_text, new_attempt_id, parse_address};
use crate::ark_backend::{ArkBackend, ONCHAIN_ESTIMATED_BLOCKS, ONCHAIN_FEE_INDEX};
use crate::ark_store::{ArkState, StateRow, StoreView};
use crate::intents::{OnchainSendIntentRecord, OnchainSendIntentState, SendIntent, SendState};
use crate::onchain_sends::send_response;
use crate::payment::{
    Failure, FeeOption, Identifier, MakePaymentResponse, MeltQuoteState, PaymentError,
    PaymentIdentifier, PaymentQuote, PaymentQuoteResponse, Sent,
};
use crate::text::{cat2, cat3, cat5, decimal, u64_text};
use vstd::prelude::*;

verus! {

/// An on-chain payment that the mint asks for.
pub struct OnchainPaymentRequest {
    pub quote_id: String,
    pub address: String,
    pub amount_sat: u64,
    pub max_fee_sat: Option<u64>,
    pub fee_index: Option<u32>,
}

/// What an [`OnchainPaymentRequest`] says.
pub struct OnchainRequest {
    pub quote_id: Seq<char>,
    pub address: Seq<char>,
    pub amount_sat: u64,
    pub max_fee_sat: Option<u64>,
    pub fee_index: Option<u32>,
}

impl View for OnchainPaymentRequest {
    type V = OnchainRequest;

    open spec fn view(&self) -> OnchainRequest {
        OnchainRequest {
            quote_id: self.quote_id@,
            address: self.address@,
            amount_sat: self.amount_sat,
            max_fee_sat: self.max_fee_sat,
            fee_index: self.fee_index,
        }
    }
}

/// What is wrong with an address, given what reading it gave.
pub open spec fn address_checked(
    parsed: Result<Result<Seq<char>, Seq<char>>, Seq<char>>,
) -> Result<Seq<char>, Failure> {
    match parsed {
        Err(e) => Err(Failure::Custom("Invalid address: "@ + e)),
        Ok(Err(e)) => Err(Failure::Custom("Address network mismatch: "@ + e)),
        Ok(Ok(address)) => Ok(address),
    }
}

/// Says what is wrong with an address, given what reading it gave.
pub fn check_address(parsed: Result<Result<String, String>, String>) -> (r: Result<
    String,
    PaymentError,
>)
    ensures
        (match r {
            Ok(a) => Ok(a@),
            Err(e) => Err(e@),
        }) == address_checked(nested_text(parsed)),
{
    match parsed {
        Err(e) => Err(PaymentError::Custom(cat2("Invalid address: ", e.as_str()))),
        Ok(Err(e)) => Err(PaymentError::Custom(cat2("Address network mismatch: ", e.as_str()))),
        Ok(Ok(address)) => Ok(address),
    }
}

/// What is said when a fee other than the only one is asked for.
pub open spec fn unsupported_fee(index: u32) -> Failure {
    Failure::Custom("Unsupported onchain fee_index Some("@ + decimal(index as nat) + ")"@)
}

/// What is said when the wallet cannot estimate a payment.
pub open spec fn no_estimate(error: Seq<char>) -> Failure {
    Failure::Custom("Failed to estimate onchain payment: "@ + error)
}

/// What is said when a payment would cost more than it may.
pub open spec fn onchain_fee_too_high(fee_sat: u64, max_fee_sat: u64) -> Failure {
    Failure::Custom(
        "Estimated onchain fee "@ + decimal(fee_sat as nat) + " sat exceeds max fee "@ + decimal(
            max_fee_sat as nat,
        ) + " sat"@,
    )
}

impl ArkBackend {
    /// Reads an address of the processor's network.
    pub fn parse_bitcoin_address(&self, address: &str) -> (r: Result<String, PaymentError>)
        ensures
            (match r {
                Ok(a) => Ok(a@),
                Err(e) => Err(e@),
            }) == address_checked(address_parsed(address@, self@.network)),
    {
        check_address(parse_address(address, self.network))
    }

    /// The quote for an on-chain payment, given what the wallet estimates. The address was read
    /// before.
    pub fn onchain_payment_quote(
        &self,
        request: &OnchainPaymentRequest,
        estimate: &Result<u64, String>,
    ) -> (r: Result<PaymentQuoteResponse, PaymentError>)
        ensures
            match *estimate {
                Err(e) => r matches Err(f) && f@ == no_estimate(e@),
                Ok(fee_sat) => r matches Ok(quote) && quote@ == (PaymentQuote {
                    lookup_id: Identifier::QuoteId(request@.quote_id),
                    amount_sat: request@.amount_sat,
                    fee_sat,
                    state: MeltQuoteState::Unpaid,
                    estimated_blocks: Some(ONCHAIN_ESTIMATED_BLOCKS),
                    fee_option: Some(
                        FeeOption {
                            fee_index: ONCHAIN_FEE_INDEX,
                            fee_reserve_sat: fee_sat,
                            estimated_blocks: ONCHAIN_ESTIMATED_BLOCKS,
                        },
                    ),
                }),
            },
            r matches Ok(quote) ==> quote@.estimated_blocks == Some(6u32)
                && quote@.fee_option->0.fee_index == 0 && quote@.fee_option->0.estimated_blocks == 6,
    {
        match estimate {
            Err(e) => Err(
                PaymentError::Custom(cat2("Failed to estimate onchain payment: ", e.as_str())),
            ),
            Ok(fee_sat) => Ok(
                PaymentQuoteResponse {
                    request_lookup_id: PaymentIdentifier::QuoteId(request.quote_id.clone()),
                    amount_sat: request.amount_sat,
                    fee_sat: *fee_sat,
                    state: MeltQuoteState::Unpaid,
                    estimated_blocks: Some(ONCHAIN_ESTIMATED_BLOCKS),
                    fee_option: Some(
                        FeeOption {
                            fee_index: ONCHAIN_FEE_INDEX,
                            fee_reserve_sat: *fee_sat,
                            estimated_blocks: ONCHAIN_ESTIMATED_BLOCKS,
                        },
                    ),
                },
            ),
        }
    }
}

/// A request that was accepted. The payments have to be reconciled before it is started.
pub struct AcceptedPayment {
    request: OnchainPaymentRequest,
}

impl View for AcceptedPayment {
    type V = OnchainRequest;

    closed spec fn view(&self) -> OnchainRequest {
        self.request@
    }
}

impl AcceptedPayment {
    /// Accepts a request, if it asks for the only fee there is.
    pub fn accept(request: OnchainPaymentRequest) -> (r: Result<AcceptedPayment, PaymentError>)
        ensures
            match request@.fee_index {
                Some(index) if index != ONCHAIN_FEE_INDEX => r matches Err(e) && e@
                    == unsupported_fee(index),
                _ => r matches Ok(a) && a@ == request@,
            },
            r is Ok <==> request@.fee_index is None || request@.fee_index == Some(0u32),
    {
        if let Some(index) = request.fee_index {
            if index != ONCHAIN_FEE_INDEX {
                return Err(
                    PaymentError::Custom(
                        cat3(
                            "Unsupported onchain fee_index Some(",
                            u64_text(index as u64).as_str(),
                            ")",
                        ),
                    ),
                );
            }
        }
        Ok(AcceptedPayment { request })
    }

    /// Starts the payment, given what reading its address gave: where the quote has a payment, that
    /// one is the answer, whatever its address; else the address has to be good.
    pub fn start_with(
        self,
        backend: &mut ArkBackend,
        parsed: Result<Result<String, String>, String>,
    ) -> (r: Result<PaymentStart, PaymentError>)
        ensures
            final(backend)@ == old(backend)@,
            started(old(backend)@.store.state, self@, address_checked(nested_text(parsed)), r),
    {
        if let Some(existing) = backend.state_store.get_send(self.request.quote_id.as_str()) {
            let response = backend.onchain_send_response(
                self.request.quote_id.as_str(),
                &existing,
                false,
            );
            return Ok(PaymentStart::Existing(response));
        }
        match check_address(parsed) {
            Ok(address) => Ok(
                PaymentStart::Estimate(AwaitingEstimate { request: self.request, address }),
            ),
            Err(e) => Err(e),
        }
    }

    /// Starts the payment.
    pub fn start(self, backend: &mut ArkBackend) -> (r: Result<PaymentStart, PaymentError>)
        ensures
            final(backend)@ == old(backend)@,
            started(
                old(backend)@.store.state,
                self@,
                address_checked(address_parsed(self@.address, old(backend)@.network)),
                r,
            ),
    {
        let parsed = parse_address(self.request.address.as_str(), backend.network);
        self.start_with(backend, parsed)
    }
}

/// How a payment goes on.
pub enum PaymentStart {
    /// The quote has a payment already, and this is what is told of it.
    Existing(MakePaymentResponse),
    /// The wallet has to estimate the fee.
    Estimate(AwaitingEstimate),
}

/// How an accepted request is started.
pub open spec fn started(
    state: ArkState,
    request: OnchainRequest,
    address: Result<Seq<char>, Failure>,
    r: Result<PaymentStart, PaymentError>,
) -> bool {
    if state.sends.dom().contains(request.quote_id) {
        r matches Ok(PaymentStart::Existing(response)) && response@ == send_response(
            request.quote_id,
            state.sends[request.quote_id],
        )
    } else {
        match address {
            Err(f) => r matches Err(e) && e@ == f,
            Ok(a) => r matches Ok(PaymentStart::Estimate(w)) && w@.request == request && w@.address
                == a,
        }
    }
}

/// A payment whose fee has to be estimated.
pub struct AwaitingEstimate {
    request: OnchainPaymentRequest,
    address: String,
}

/// What an [`AwaitingEstimate`] holds.
pub struct ToEstimate {
    pub request: OnchainRequest,
    /// The canonical text of the address.
    pub address: Seq<char>,
}

impl View for AwaitingEstimate {
    type V = ToEstimate;

    closed spec fn view(&self) -> ToEstimate {
        ToEstimate { request: self.request@, address: self.address@ }
    }
}

/// The payment that is written down before it is made.
pub open spec fn attempted_send(
    to: ToEstimate,
    attempt_id: Seq<char>,
    fee_sat: u64,
    started_at: u64,
) -> SendIntent {
    SendIntent {
        quote_id: to.request.quote_id,
        address: to.address,
        amount_sat: to.request.amount_sat,
        state: SendState::Attempting { attempt: 1, attempt_id, fee_sat, started_at },
    }
}

/// Whether a payment may cost a fee.
pub open spec fn fee_allowed(max_fee_sat: Option<u64>, fee_sat: u64) -> bool {
    match max_fee_sat {
        Some(max) => fee_sat <= max,
        None => true,
    }
}

impl AwaitingEstimate {
    /// The address to pay.
    pub fn address(&self) -> (address: &String)
        ensures
            address@ == self@.address,
    {
        &self.address
    }

    /// The amount to pay.
    pub fn amount_sat(&self) -> (amount: u64)
        ensures
            amount == self@.request.amount_sat,
    {
        self.request.amount_sat
    }

    /// Goes on with the estimate, under a given attempt id: the attempt is written down if the fee
    /// is allowed.
    pub fn estimated_as(
        self,
        backend: &mut ArkBackend,
        estimate: &Result<u64, String>,
        attempt_id: String,
        started_at: u64,
    ) -> (r: Result<AwaitingSend, PaymentError>)
        ensures
            match *estimate {
                Err(e) => r matches Err(f) && f@ == no_estimate(e@) && final(backend)@ == old(
                    backend,
                )@,
                Ok(fee_sat) => if fee_allowed(self@.request.max_fee_sat, fee_sat) {
                    &&& r matches Ok(w) && w@ == attempted_send(
                        self@,
                        attempt_id@,
                        fee_sat,
                        started_at,
                    )
                    &&& final(backend)@ == old(backend)@.put(
                        StateRow::Send {
                            quote_id: self@.request.quote_id,
                            send: attempted_send(self@, attempt_id@, fee_sat, started_at),
                        },
                    )
                } else {
                    &&& r matches Err(f) && f@ == onchain_fee_too_high(
                        fee_sat,
                        self@.request.max_fee_sat->0,
                    )
                    &&& final(backend)@ == old(backend)@
                },
            },
    {
        let fee_sat: u64 = match estimate {
            Ok(fee) => *fee,
            Err(e) => {
                return Err(
                    PaymentError::Custom(cat2("Failed to estimate onchain payment: ", e.as_str())),
                );
            },
        };
        if let Some(max_fee_sat) = self.request.max_fee_sat {
            if fee_sat > max_fee_sat {
                return Err(
                    PaymentError::Custom(
                        cat5(
                            "Estimated onchain fee ",
                            u64_text(fee_sat).as_str(),
                            " sat exceeds max fee ",
                            u64_text(max_fee_sat).as_str(),
                            " sat",
                        ),
                    ),
                );
            }
        }
        let intent = OnchainSendIntentRecord {
            quote_id: self.request.quote_id,
            address: self.address,
            amount_sat: self.request.amount_sat,
            state: OnchainSendIntentState::Attempting { attempt: 1, attempt_id, fee_sat, started_at },
        };
        backend.state_store.put_send(intent.quote_id.as_str(), &intent);
        Ok(AwaitingSend { intent, fee_sat })
    }

    /// Goes on with the estimate, under a fresh attempt id.
    pub fn estimated(
        self,
        backend: &mut ArkBackend,
        estimate: &Result<u64, String>,
        started_at: u64,
    ) -> (r: Result<AwaitingSend, PaymentError>)
        ensures
            match *estimate {
                Err(e) => r matches Err(f) && f@ == no_estimate(e@) && final(backend)@ == old(
                    backend,
                )@,
                Ok(fee_sat) => if fee_allowed(self@.request.max_fee_sat, fee_sat) {
                    &&& r matches Ok(w) && w@.state is Attempting && w@ == attempted_send(
                        self@,
                        w@.state->Attempting_attempt_id,
                        fee_sat,
                        started_at,
                    ) && final(backend)@ == old(backend)@.put(
                        StateRow::Send { quote_id: self@.request.quote_id, send: w@ },
                    )
                } else {
                    &&& r matches Err(f) && f@ == onchain_fee_too_high(
                        fee_sat,
                        self@.request.max_fee_sat->0,
                    )
                    &&& final(backend)@ == old(backend)@
                },
            },
    {
        let attempt_id = new_attempt_id();
        self.estimated_as(backend, estimate, attempt_id, started_at)
    }
}

/// A payment that is written down and that the wallet has to make.
pub struct AwaitingSend {
    intent: OnchainSendIntentRecord,
    fee_sat: u64,
}

impl View for AwaitingSend {
    type V = SendIntent;

    closed spec fn view(&self) -> SendIntent {
        self.intent@
    }
}

impl AwaitingSend {
    #[verifier::type_invariant]
    spec fn fee_is_noted(&self) -> bool {
        self.intent.state matches OnchainSendIntentState::Attempting { fee_sat, .. } && fee_sat
            == self.fee_sat
    }

    /// Notes that the wallet broadcast the payment.
    pub fn sent(self, backend: &mut ArkBackend, txid: &str, now: u64) -> (response:
        MakePaymentResponse)
        ensures
            self@.state is Attempting,
            final(backend)@ == old(backend)@.put(
                StateRow::Send {
                    quote_id: self@.quote_id,
                    send: SendIntent {
                        state: SendState::Broadcast {
                            txid: txid@,
                            fee_sat: self@.state->Attempting_fee_sat,
                            broadcast_at: now,
                        },
                        ..self@
                    },
                },
            ),
            response@ == (Sent {
                lookup_id: Identifier::QuoteId(self@.quote_id),
                proof_text: Some(txid@),
                status: MeltQuoteState::Pending,
                total_spent_sat: 0,
            }),
    {
        proof {
            use_type_invariant(&self);
        }
        let fee_sat: u64 = self.fee_sat;
        let base = self.intent;
        let quote_id = base.quote_id.clone();
        let intent = OnchainSendIntentRecord {
            state: OnchainSendIntentState::Broadcast {
                txid: txid.to_owned(),
                fee_sat,
                broadcast_at: now,
            },
            ..base
        };
        backend.state_store.put_send(quote_id.as_str(), &intent);
        MakePaymentResponse {
            payment_lookup_id: PaymentIdentifier::QuoteId(quote_id),
            payment_proof: Some(txid.to_owned()),
            status: MeltQuoteState::Pending,
            total_spent_sat: 0,
        }
    }

    /// Notes that the wallet failed. Whether the payment was made is not known, so somebody has to
    /// look, and the quote is never paid again by itself.
    pub fn send_failed(self, backend: &mut ArkBackend, reason: &str, now: u64) -> (e: PaymentError)
        ensures
            self@.state is Attempting,
            final(backend)@ == old(backend)@.put(
                StateRow::Send {
                    quote_id: self@.quote_id,
                    send: SendIntent {
                        state: SendState::NeedsReview {
                            reason: "Bark send_onchain returned an error after the offboard attempt was started: "@
                                + reason@,
                            fee_sat: Some(self@.state->Attempting_fee_sat),
                            failed_at: now,
                        },
                        ..self@
                    },
                },
            ),
            e@ == Failure::Custom("Failed to send onchain payment: "@ + reason@),
    {
        proof {
            use_type_invariant(&self);
        }
        let fee_sat: u64 = self.fee_sat;
        let base = self.intent;
        let quote_id = base.quote_id.clone();
        let intent = OnchainSendIntentRecord {
            state: OnchainSendIntentState::NeedsReview {
                reason: cat2(
                    "Bark send_onchain returned an error after the offboard attempt was started: ",
                    reason,
                ),
                fee_sat: Some(fee_sat),
                failed_at: now,
            },
            ..base
        };
        backend.state_store.put_send(quote_id.as_str(), &intent);
        PaymentError::Custom(cat2("Failed to send onchain payment: ", reason))
    }
}

/// No quote is paid on chain twice: once an attempt is written down, the quote has a payment, and
/// a request for a quote that has one is answered from it.
pub proof fn law_quote_is_paid_once(
    store: StoreView,
    to: ToEstimate,
    attempt_id: Seq<char>,
    fee_sat: u64,
    started_at: u64,
    again: OnchainRequest,
    address: Result<Seq<char>, Failure>,
    r: Result<PaymentStart, PaymentError>,
)
    requires
        again.quote_id == to.request.quote_id,
        started(
            store.put(
                StateRow::Send {
                    quote_id: to.request.quote_id,
                    send: attempted_send(to, attempt_id, fee_sat, started_at),
                },
            ).state,
            again,
            address,
            r,
        ),
    ensures
        r matches Ok(PaymentStart::Existing(response)) && response@.status
            == MeltQuoteState::Pending,
{
}

/// A payment, once written down, is never taken out again.
pub proof fn law_payments_are_kept(state: ArkState, quote_id: Seq<char>, row: StateRow)
    requires
        state.sends.dom().contains(quote_id),
    ensures
        state.written(row).sends.dom().contains(quote_id),
{
}

/// A payment is written down as it was asked for: the quote, the amount, the address as it was
/// read, and the fee that was estimated.
pub proof fn law_attempt_is_what_was_asked_for(
    to: ToEstimate,
    attempt_id: Seq<char>,
    fee_sat: u64,
    started_at: u64,
)
    ensures
        ({
            let send = attempted_send(to, attempt_id, fee_sat, started_at);
            &&& send.quote_id == to.request.quote_id
            &&& send.amount_sat == to.request.amount_sat
            &&& send.address == to.address
            &&& send.state matches SendState::Attempting {
                attempt,
                attempt_id: id,
                fee_sat: fee,
                started_at: at,
            } && attempt == 1 && id == attempt_id && fee == fee_sat && at == started_at
        }),
{
}

/// A payment for a quote without one goes on exactly where its address is good, and to that
/// address; and one for a quote with one is answered from that quote's payment, whatever the
/// address: never as paid unless that payment is confirmed.
pub proof fn law_payment_starts_at_its_address(
    state: ArkState,
    request: OnchainRequest,
    parsed: Result<Result<Seq<char>, Seq<char>>, Seq<char>>,
    r: Result<PaymentStart, PaymentError>,
)
    requires
        started(state, request, address_checked(parsed), r),
    ensures
        !state.sends.dom().contains(request.quote_id) ==> match parsed {
            Ok(Ok(address)) => r matches Ok(PaymentStart::Estimate(w)) && w@.address == address
                && w@.request == request,
            _ => r is Err,
        },
        state.sends.dom().contains(request.quote_id) ==> (r matches Ok(
            PaymentStart::Existing(response),
        ) && response@.lookup_id == Identifier::QuoteId(request.quote_id) && (response@.status
            == MeltQuoteState::Paid <==> state.sends[request.quote_id].state is Confirmed)),
{
}

/// A limit on the fee is kept: what may be paid without one is anything, and with one is anything
/// up to it.
pub proof fn law_fee_limit_is_kept(max_fee_sat: Option<u64>, fee_sat: u64)
    ensures
        max_fee_sat is None ==> fee_allowed(max_fee_sat, fee_sat),
        max_fee_sat matches Some(max) ==> (fee_allowed(max_fee_sat, fee_sat) <==> fee_sat <= max),
{
}

/// What an [`OnchainPaymentRequest`] says is what its fields hold, each under its own name.
pub proof fn law_onchain_payment_request_says_what_it_holds(x: OnchainPaymentRequest)
    ensures
        x@.quote_id == x.quote_id@,
        x@.address == x.address@,
        x@.amount_sat == x.amount_sat,
        x@.max_fee_sat == x.max_fee_sat,
        x@.fee_index == x.fee_index,
{
}

/// A refusal says why: the fee that was chosen is named, or what the wallet said, or the fee and the
/// limit that it exceeds.
pub proof fn law_onchain_refusals_say_why(
    index: u32,
    error: Seq<char>,
    fee_sat: u64,
    max_fee_sat: u64,
)
    ensures
        unsupported_fee(index) == Failure::Custom(
            "Unsupported onchain fee_index Some("@ + decimal(index as nat) + ")"@,
        ),
        no_estimate(error) == Failure::Custom("Failed to estimate onchain payment: "@ + error),
        onchain_fee_too_high(fee_sat, max_fee_sat) == Failure::Custom(
            "Estimated onchain fee "@ + decimal(fee_sat as nat) + " sat exceeds max fee "@ + decimal(
                max_fee_sat as nat,
            ) + " sat"@,
        ),
{
}

/// An address that cannot be read and one of another network are told apart, each with what was said
/// of it, and a good one is taken as it was read.
pub proof fn law_bad_addresses_are_told_apart(address: Seq<char>, error: Seq<char>)
    ensures
        address_checked(Ok(Ok(address))) == Ok::<Seq<char>, Failure>(address),
        address_checked(Err(error)) == Err::<Seq<char>, Failure>(
            Failure::Custom("Invalid address: "@ + error),
        ),
        address_checked(Ok(Err(error))) == Err::<Seq<char>, Failure>(
            Failure::Custom("Address network mismatch: "@ + error),
        ),
{
}

} // verus!
