//! The requests of the mint: which of them the processor serves, and how each goes on.

use crate::adapters::{
    address_parsed, hex_encode, hex_text, law_hex_reads_back, new_quote_id, parse_quote_id,
    quote_id_parsed, result_text, unhex,
};
use crate::ark_backend::{ArkBackend, BackendView, ONCHAIN_FEE_INDEX};
use crate::ark_store::{
    law_quote_is_found_by_its_hash, lightning_send_for, quote_for_hash, ArkState, StateRow,
};
use crate::lightning_sends::{
    lightning_fee, lightning_fee_too_high, lightning_payment_quote, no_amount,
    parse_payment_hash_hex, stored_hash, AcceptedLightning, LightningPaymentRequest,
};
use crate::onchain_payment::{
    address_checked, unsupported_fee, AcceptedPayment, OnchainPaymentRequest,
};
use crate::onchain_sends::send_response;
use crate::payjoin_receiver::{session_created, session_result, ReceiverView, SessionFailure};
use crate::payjoin_state::{
    reuse_message, OnRampQuoteRecord, OnRampRow, OnRampView, QuoteRecord,
};
use crate::payment::{
    copy_bytes, received_view, CreateIncomingPaymentResponse, Failure, Identifier,
    IncomingRequest, MakePaymentResponse, MeltQuoteState, News, PaymentError, PaymentEvent,
    PaymentIdentifier, PaymentQuote, PaymentQuoteResponse, Received, WaitPaymentResponse,
};
use crate::seqs::{
    first_where, lemma_first_found, lemma_first_is, lemma_found, lemma_no_first,
};
use crate::telemetry::{event_of, EventData, OnRampEvent, OnRampStage};
use crate::text::{cat2, cat4, str_eq};
use vstd::prelude::*;

verus! {

// ---- requests to be paid --------------------------------------------------------------------

/// What the mint asks to be paid.
pub enum IncomingPaymentOptions {
    Bolt11 { unit: String, amount_sat: u64, description: Option<String> },
    Onchain { quote_id: String },
    Other,
}

/// How a request to be paid goes on.
pub enum IncomingPlan {
    /// The wallet has to make an invoice.
    Invoice { amount_sat: u64, description: Option<String> },
    /// The wallet has to derive a board for the quote.
    Board { quote_id: String },
}

/// Decides how a request to be paid goes on.
pub fn create_incoming_payment_request(options: IncomingPaymentOptions) -> (r: Result<
    IncomingPlan,
    PaymentError,
>)
    ensures
        match options {
            IncomingPaymentOptions::Bolt11 { unit, amount_sat, description } => if unit@
                == "sat"@ {
                r matches Ok(IncomingPlan::Invoice { amount_sat: a, description: d }) && a
                    == amount_sat && d == description
            } else {
                r matches Err(e) && e@ == Failure::UnsupportedUnit
            },
            IncomingPaymentOptions::Onchain { quote_id } => r matches Ok(
                IncomingPlan::Board { quote_id: q },
            ) && q == quote_id,
            IncomingPaymentOptions::Other => r matches Err(e) && e@
                == Failure::UnsupportedPaymentOption,
        },
{
    match options {
        IncomingPaymentOptions::Bolt11 { unit, amount_sat, description } => {
            if str_eq(unit.as_str(), "sat") {
                Ok(IncomingPlan::Invoice { amount_sat, description })
            } else {
                Err(PaymentError::UnsupportedUnit)
            }
        },
        IncomingPaymentOptions::Onchain { quote_id } => Ok(IncomingPlan::Board { quote_id }),
        IncomingPaymentOptions::Other => Err(PaymentError::UnsupportedPaymentOption),
    }
}

/// An invoice that the wallet made.
pub struct NewInvoice {
    pub payment_hash: Vec<u8>,
    pub expiry_secs: u64,
    pub text: String,
}

/// What the wallet derives for a board.
pub struct DerivedBoard {
    pub keypair_index: u32,
    pub expiry_height: u32,
    pub script: Vec<u8>,
    pub address: String,
}

/// Why the wallet could not derive a board.
pub enum DeriveFailure {
    Keypair(String),
    Address(String),
}

/// What is said where the wallet could not derive a board.
pub open spec fn not_derived(failure: DeriveFailure) -> Failure {
    match failure {
        DeriveFailure::Keypair(e) => Failure::Custom("Failed to derive board keypair: "@ + e@),
        DeriveFailure::Address(e) => Failure::Custom(
            "Failed to derive board funding address: "@ + e@,
        ),
    }
}

/// What is said where a board script was handed out before.
pub open spec fn script_reused(quote_id: Seq<char>, script_hex: Seq<char>) -> Failure {
    Failure::Custom(
        "no-address-reuse guard rejected board script for quote "@ + quote_id + ": "@
            + reuse_message(script_hex),
    )
}

/// A board whose script is on record as handed out, for which a session has to be made.
pub struct AdvertisedBoard {
    quote_id: String,
    board: DerivedBoard,
}

/// What an [`AdvertisedBoard`] holds.
pub struct Advertised {
    pub quote_id: Seq<char>,
    pub keypair_index: u32,
    pub expiry_height: u32,
    pub script: Seq<u8>,
    pub address: Seq<char>,
}

impl View for AdvertisedBoard {
    type V = Advertised;

    closed spec fn view(&self) -> Advertised {
        Advertised {
            quote_id: self.quote_id@,
            keypair_index: self.board.keypair_index,
            expiry_height: self.board.expiry_height,
            script: self.board.script@,
            address: self.board.address@,
        }
    }
}

impl BackendView {
    /// The processor with another on-ramp store.
    pub open spec fn with_onramp(self, onramp: OnRampView) -> BackendView {
        BackendView { receiver: ReceiverView { onramp, ..self.receiver }, ..self }
    }
}

/// What is kept of a quote whose board is handed out.
pub open spec fn quote_record(board: Advertised, uri: Seq<char>) -> QuoteRecord {
    QuoteRecord {
        quote_id: board.quote_id,
        keypair_index: board.keypair_index,
        expiry_height: board.expiry_height,
        board_script_hex: hex_text(board.script),
        board_address: board.address,
        bip21_uri: uri,
    }
}

impl ArkBackend {
    /// Puts the script of a board on record as handed out, and refuses it if it was before.
    pub fn advertise_board(&mut self, quote_id: &str, derived: Result<DerivedBoard, DeriveFailure>)
        -> (r: Result<AdvertisedBoard, PaymentError>)
        ensures
            match derived {
                Err(failure) => r matches Err(e) && e@ == not_derived(failure) && final(self)@
                    == old(self)@,
                Ok(board) => if old(
                    self,
                )@.receiver.onramp.state.advertised_scripts.dom().contains(
                    hex_text(board.script@),
                ) {
                    r matches Err(e) && e@ == script_reused(quote_id@, hex_text(board.script@))
                        && final(self)@ == old(self)@
                } else {
                    r matches Ok(a) && a@ == (Advertised {
                        quote_id: quote_id@,
                        keypair_index: board.keypair_index,
                        expiry_height: board.expiry_height,
                        script: board.script@,
                        address: board.address@,
                    }) && final(self)@ == old(self)@.with_onramp(
                        old(self)@.receiver.onramp.put(
                            OnRampRow::ScriptAdvertised {
                                script_hex: hex_text(board.script@),
                                context: "board:"@ + quote_id@,
                            },
                        ),
                    )
                },
            },
    {
        let board = match derived {
            Ok(board) => board,
            Err(DeriveFailure::Keypair(e)) => {
                return Err(
                    PaymentError::Custom(cat2("Failed to derive board keypair: ", e.as_str())),
                );
            },
            Err(DeriveFailure::Address(e)) => {
                return Err(
                    PaymentError::Custom(
                        cat2("Failed to derive board funding address: ", e.as_str()),
                    ),
                );
            },
        };
        let script_hex = hex_encode(&board.script);
        let context = cat2("board:", quote_id);
        match self.payjoin.state.record_advertised_script(script_hex.as_str(), context.as_str()) {
            Ok(_) => Ok(AdvertisedBoard { quote_id: quote_id.to_owned(), board }),
            Err(e) => Err(
                PaymentError::Custom(
                    cat4(
                        "no-address-reuse guard rejected board script for quote ",
                        quote_id,
                        ": ",
                        e.0.as_str(),
                    ),
                ),
            ),
        }
    }

    /// Hands out an invoice under a given quote id, and keeps its payment hash.
    pub fn invoice_created_as(
        &mut self,
        invoice: Result<NewInvoice, String>,
        quote_id: String,
    ) -> (r: Result<CreateIncomingPaymentResponse, PaymentError>)
        ensures
            match invoice {
                Err(error) => r matches Err(e) && e@ == Failure::Custom(
                    "Failed to create invoice: "@ + error@,
                ) && final(self)@ == old(self)@,
                Ok(i) => r matches Ok(response) && response@ == (IncomingRequest {
                    lookup_id: Identifier::QuoteId(quote_id@),
                    request: i.text@,
                    expiry: Some(i.expiry_secs),
                    board_address: None,
                }) && final(self)@ == old(self)@.put(
                    StateRow::LightningReceiveQuote {
                        quote_id: quote_id@,
                        payment_hash: hex_text(i.payment_hash@),
                    },
                ),
            },
    {
        match invoice {
            Err(e) => Err(PaymentError::Custom(cat2("Failed to create invoice: ", e.as_str()))),
            Ok(i) => {
                let hash = hex_encode(&i.payment_hash);
                self.state_store.put_lightning_receive_quote(quote_id.as_str(), hash.as_str());
                Ok(
                    CreateIncomingPaymentResponse {
                        request_lookup_id: PaymentIdentifier::QuoteId(quote_id),
                        request: i.text,
                        expiry: Some(i.expiry_secs),
                        board_address: None,
                    },
                )
            },
        }
    }

    /// Hands out an invoice under a fresh quote id, and keeps its payment hash.
    pub fn invoice_created(&mut self, invoice: Result<NewInvoice, String>) -> (r: Result<
        CreateIncomingPaymentResponse,
        PaymentError,
    >)
        ensures
            match invoice {
                Err(error) => r matches Err(e) && e@ == Failure::Custom(
                    "Failed to create invoice: "@ + error@,
                ) && final(self)@ == old(self)@,
                Ok(i) => r matches Ok(response) && response@.lookup_id is QuoteId
                    && quote_id_parsed(response@.lookup_id->QuoteId_0) == Ok::<
                    Seq<char>,
                    Seq<char>,
                >(response@.lookup_id->QuoteId_0) && response@ == (IncomingRequest {
                    lookup_id: response@.lookup_id,
                    request: i.text@,
                    expiry: Some(i.expiry_secs),
                    board_address: None,
                }) && final(self)@ == old(self)@.put(
                    StateRow::LightningReceiveQuote {
                        quote_id: response@.lookup_id->QuoteId_0,
                        payment_hash: hex_text(i.payment_hash@),
                    },
                ),
            },
    {
        let quote_id = new_quote_id();
        self.invoice_created_as(invoice, quote_id)
    }
}

impl AdvertisedBoard {
    /// Hands out the board, once its session is made: keeps the quote and the address, and says
    /// what to answer and which event to emit.
    pub fn session_created(
        self,
        backend: &mut ArkBackend,
        session_uri: &Result<String, SessionFailure>,
    ) -> (r: Result<(CreateIncomingPaymentResponse, OnRampEvent), PaymentError>)
        ensures
            match session_created(
                old(backend)@.receiver.config.ohttp_keys,
                session_result(*session_uri),
            ) {
                Err(error) => r matches Err(e) && e@ == Failure::Custom(
                    "Failed to create payjoin session: "@ + error,
                ) && final(backend)@ == old(backend)@,
                Ok(uri) => r matches Ok((response, event)) && response@ == (IncomingRequest {
                    lookup_id: Identifier::QuoteId(self@.quote_id),
                    request: uri,
                    expiry: None,
                    board_address: Some(self@.address),
                }) && event@ == event_of(
                    self@.quote_id,
                    OnRampStage::QuoteCreated,
                    (EventData { board_address: Some(self@.address), ..EventData::empty() }),
                ) && final(backend)@ == old(backend)@.with_onramp(
                    old(backend)@.receiver.onramp.put(
                        OnRampRow::Quote { record: quote_record(self@, uri) },
                    ),
                ).put(
                    StateRow::ReceiveAddress { quote_id: self@.quote_id, address: self@.address },
                ),
            },
    {
        let uri = match backend.payjoin.create_session(session_uri) {
            Ok(uri) => uri,
            Err(e) => {
                return Err(
                    PaymentError::Custom(cat2("Failed to create payjoin session: ", e.as_str())),
                );
            },
        };
        let record = OnRampQuoteRecord {
            quote_id: self.quote_id.clone(),
            keypair_index: self.board.keypair_index,
            expiry_height: self.board.expiry_height,
            board_script_hex: hex_encode(&self.board.script),
            board_address: self.board.address.clone(),
            bip21_uri: uri.clone(),
        };
        backend.payjoin.state.put_quote(&record);
        backend.state_store.put_receive_address(
            self.quote_id.as_str(),
            self.board.address.as_str(),
        );
        let event = OnRampEvent::new(
            self.quote_id.as_str(),
            OnRampStage::QuoteCreated,
        ).with_board_address(self.board.address.as_str());
        let response = CreateIncomingPaymentResponse {
            request_lookup_id: PaymentIdentifier::QuoteId(self.quote_id),
            request: uri,
            expiry: None,
            board_address: Some(self.board.address),
        };
        Ok((response, event))
    }
}

/// No script is handed out for two boards: once one is on record, it is refused for every quote,
/// and it stays on record whatever is changed.
pub proof fn law_scripts_are_handed_out_once(
    onramp: OnRampView,
    script_hex: Seq<char>,
    context: Seq<char>,
    row: OnRampRow,
)
    ensures
        ({
            let after = onramp.put(OnRampRow::ScriptAdvertised { script_hex, context });
            &&& after.state.advertised_scripts.dom().contains(script_hex)
            &&& after.put(row).state.advertised_scripts.dom().contains(script_hex)
        }),
{
}

// ---- payments -------------------------------------------------------------------------------

/// What the mint asks to pay.
pub enum OutgoingPaymentOptions {
    Bolt11(LightningPaymentRequest),
    Onchain(OnchainPaymentRequest),
    Other,
}

/// How a request for a payment quote goes on.
pub enum QuotePlan {
    /// This is the quote.
    Ready(PaymentQuoteResponse),
    /// The wallet has to estimate a payment to this address.
    Estimate { request: OnchainPaymentRequest, address: String },
}

/// How a request for a payment goes on.
pub enum PaymentPlan {
    Lightning(AcceptedLightning),
    Onchain(AcceptedPayment),
}

impl ArkBackend {
    /// Decides how a request for a payment quote goes on.
    pub fn get_payment_quote(&self, unit: &str, options: OutgoingPaymentOptions) -> (r: Result<
        QuotePlan,
        PaymentError,
    >)
        ensures
            if unit@ != "sat"@ {
                r matches Err(e) && e@ == Failure::UnsupportedUnit
            } else {
                match options {
                    OutgoingPaymentOptions::Bolt11(request) => match request@.amount_msat {
                        None => r matches Err(e) && e@ == no_amount(),
                        Some(msat) => r matches Ok(QuotePlan::Ready(quote)) && quote@ == (
                        PaymentQuote {
                            lookup_id: Identifier::QuoteId(request@.quote_id),
                            amount_sat: msat / 1000,
                            fee_sat: lightning_fee(msat / 1000),
                            state: MeltQuoteState::Unpaid,
                            estimated_blocks: None,
                            fee_option: None,
                        }),
                    },
                    OutgoingPaymentOptions::Onchain(request) => match address_checked(
                        address_parsed(request@.address, self@.network),
                    ) {
                        Err(f) => r matches Err(e) && e@ == f,
                        Ok(a) => r matches Ok(QuotePlan::Estimate { request: q, address })
                            && q == request && address@ == a,
                    },
                    OutgoingPaymentOptions::Other => r matches Err(e) && e@
                        == Failure::UnsupportedPaymentOption,
                }
            },
    {
        if !str_eq(unit, "sat") {
            return Err(PaymentError::UnsupportedUnit);
        }
        match options {
            OutgoingPaymentOptions::Bolt11(request) => {
                match lightning_payment_quote(request.quote_id.as_str(), request.amount_msat) {
                    Ok(quote) => Ok(QuotePlan::Ready(quote)),
                    Err(e) => Err(e),
                }
            },
            OutgoingPaymentOptions::Onchain(request) => {
                match self.parse_bitcoin_address(request.address.as_str()) {
                    Ok(address) => Ok(QuotePlan::Estimate { request, address }),
                    Err(e) => Err(e),
                }
            },
            OutgoingPaymentOptions::Other => Err(PaymentError::UnsupportedPaymentOption),
        }
    }
}

/// Decides how a request for a payment goes on.
pub fn make_payment(unit: &str, options: OutgoingPaymentOptions) -> (r: Result<
    PaymentPlan,
    PaymentError,
>)
    ensures
        if unit@ != "sat"@ {
            r matches Err(e) && e@ == Failure::UnsupportedUnit
        } else {
            match options {
                OutgoingPaymentOptions::Bolt11(request) => match request@.amount_msat {
                    None => r matches Err(e) && e@ == no_amount(),
                    Some(msat) => match request@.max_fee_sat {
                        Some(max) if lightning_fee(msat / 1000) > max => r matches Err(e) && e@
                            == lightning_fee_too_high(lightning_fee(msat / 1000), max),
                        _ => r matches Ok(PaymentPlan::Lightning(a)) && a@.request == request@
                            && a@.amount_sat == msat / 1000,
                    },
                },
                OutgoingPaymentOptions::Onchain(request) => match request@.fee_index {
                    Some(index) if index != ONCHAIN_FEE_INDEX => r matches Err(e) && e@
                        == unsupported_fee(index),
                    _ => r matches Ok(PaymentPlan::Onchain(a)) && a@ == request@,
                },
                OutgoingPaymentOptions::Other => r matches Err(e) && e@
                    == Failure::UnsupportedPaymentOption,
            }
        },
{
    if !str_eq(unit, "sat") {
        return Err(PaymentError::UnsupportedUnit);
    }
    match options {
        OutgoingPaymentOptions::Bolt11(request) => match AcceptedLightning::accept(request) {
            Ok(a) => Ok(PaymentPlan::Lightning(a)),
            Err(e) => Err(e),
        },
        OutgoingPaymentOptions::Onchain(request) => match AcceptedPayment::accept(request) {
            Ok(a) => Ok(PaymentPlan::Onchain(a)),
            Err(e) => Err(e),
        },
        OutgoingPaymentOptions::Other => Err(PaymentError::UnsupportedPaymentOption),
    }
}

// ---- status ---------------------------------------------------------------------------------

/// A Lightning receive, as the wallet knows it.
pub struct LightningReceive {
    pub payment_hash: Vec<u8>,
    pub finished: bool,
    pub amount_msat: Option<u64>,
}

/// What a [`LightningReceive`] says.
pub struct Invoiced {
    pub payment_hash: Seq<u8>,
    pub finished: bool,
    pub amount_msat: Option<u64>,
}

impl View for LightningReceive {
    type V = Invoiced;

    open spec fn view(&self) -> Invoiced {
        Invoiced {
            payment_hash: self.payment_hash@,
            finished: self.finished,
            amount_msat: self.amount_msat,
        }
    }
}

/// What each of several receives says.
pub open spec fn invoiced_view(v: Seq<LightningReceive>) -> Seq<Invoiced> {
    v.map_values(|r: LightningReceive| r@)
}

/// What the mint is told of a finished receive.
pub open spec fn lightning_received(identifier: Identifier, receive: Invoiced) -> Received {
    Received {
        identifier,
        amount_sat: match receive.amount_msat {
            Some(msat) => msat / 1000,
            None => 0,
        },
        payment_id: hex_text(receive.payment_hash),
    }
}

/// By what the mint knows a receive: by its quote where the stored quote id can be read, and else
/// by its payment hash.
pub open spec fn identifier_for(
    parsed: Option<Result<Seq<char>, Seq<char>>>,
    payment_hash: Seq<u8>,
) -> Identifier {
    match parsed {
        Some(Ok(id)) => Identifier::QuoteId(id),
        _ => Identifier::PaymentHash(payment_hash),
    }
}

/// By what the mint knows a receive, with its quote looked up.
pub open spec fn receive_identifier(state: ArkState, receive: Invoiced) -> Identifier {
    identifier_for(
        match quote_for_hash(state, hex_text(receive.payment_hash)) {
            Some(q) => Some(quote_id_parsed(q)),
            None => None,
        },
        receive.payment_hash,
    )
}

/// The first finished receive that the mint has not been told of.
pub open spec fn next_lightning_receive(state: ArkState, receives: Seq<Invoiced>) -> Option<
    Invoiced,
> {
    first_where(
        receives,
        |r: Invoiced|
            r.finished && !state.reported_lightning_receives.contains(
                receive_identifier(state, r).text(),
            ),
    )
}

/// Says by what the mint knows a receive, given what parsing its stored quote id gave.
pub fn identify_receive(parsed: Option<Result<String, String>>, payment_hash: &Vec<u8>) -> (id:
    PaymentIdentifier)
    ensures
        id@ == identifier_for(
            match parsed {
                Some(r) => Some(result_text(r)),
                None => None,
            },
            payment_hash@,
        ),
{
    match parsed {
        Some(Ok(id)) => PaymentIdentifier::QuoteId(id),
        _ => PaymentIdentifier::PaymentHash(copy_bytes(payment_hash)),
    }
}

/// How the status of an incoming payment is found.
pub enum IncomingCheck {
    /// The wallet has to be asked for this Lightning receive.
    Lightning { payment_hash: Vec<u8> },
    /// The boards have to be brought up to date, and the quote looked up.
    Onchain { quote_id: String },
}

/// How the status of an outgoing payment is found.
pub enum OutgoingCheck {
    /// This is the answer.
    Known(MakePaymentResponse),
    /// The Lightning payment under this hash has to be reconciled.
    Lightning { payment_hash: String },
}

impl ArkBackend {
    /// What was received over Lightning, given what the wallet says of the receive. Where the
    /// caller credits it, it is noted as reported.
    pub fn check_lightning_receive(
        &mut self,
        payment_identifier: PaymentIdentifier,
        receive: &Result<Option<LightningReceive>, String>,
        mark_reported: bool,
    ) -> (r: Result<Vec<WaitPaymentResponse>, PaymentError>)
        ensures
            match *receive {
                Err(error) => r matches Err(e) && e@ == Failure::Custom(
                    "Failed to check receive status: "@ + error@,
                ) && final(self)@ == old(self)@,
                Ok(Some(found)) if found@.finished => r matches Ok(v) && received_view(v@)
                    == seq![lightning_received(payment_identifier@, found@)] && final(self)@
                    == if mark_reported {
                    old(self)@.put(
                        StateRow::LightningReceiveReported {
                            lookup_id: payment_identifier@.text(),
                        },
                    )
                } else {
                    old(self)@
                },
                Ok(_) => r matches Ok(v) && v@.len() == 0 && final(self)@ == old(self)@,
            },
    {
        let found = match receive {
            Err(e) => {
                return Err(
                    PaymentError::Custom(cat2("Failed to check receive status: ", e.as_str())),
                );
            },
            Ok(None) => {
                return Ok(Vec::new());
            },
            Ok(Some(found)) => found,
        };
        if !found.finished {
            return Ok(Vec::new());
        }
        if mark_reported {
            let text = payment_identifier.text();
            self.state_store.mark_lightning_receive_reported(text.as_str());
        }
        let mut out: Vec<WaitPaymentResponse> = Vec::new();
        let ghost identifier = payment_identifier@;
        out.push(lightning_response(payment_identifier, found));
        proof {
            assert(received_view(out@) =~= seq![lightning_received(identifier, found@)]);
        }
        Ok(out)
    }

    fn find_identifier(&self, receive: &LightningReceive) -> (id: PaymentIdentifier)
        ensures
            id@ == receive_identifier(self@.store.state, receive@),
    {
        let hash = hex_encode(&receive.payment_hash);
        let parsed = match self.state_store.lightning_receive_quote_for_hash(hash.as_str()) {
            Some(q) => Some(parse_quote_id(q.as_str())),
            None => None,
        };
        identify_receive(parsed, &receive.payment_hash)
    }

    /// Tells the mint of the first finished receive that it has not been told of, if there is one.
    pub fn next_lightning_receive_event(&mut self, receives: &Vec<LightningReceive>) -> (r: Option<
        PaymentEvent,
    >)
        ensures
            ({
                let state = old(self)@.store.state;
                match next_lightning_receive(state, invoiced_view(receives@)) {
                    None => r is None && final(self)@ == old(self)@,
                    Some(receive) => r matches Some(news) && news@ == News::Received(
                        lightning_received(receive_identifier(state, receive), receive),
                    ) && final(self)@ == old(self)@.put(
                        StateRow::LightningReceiveReported {
                            lookup_id: receive_identifier(state, receive).text(),
                        },
                    ),
                }
            }),
    {
        let ghost state = self@.store.state;
        let ghost all = invoiced_view(receives@);
        let ghost wanted = |r: Invoiced|
            r.finished && !state.reported_lightning_receives.contains(
                receive_identifier(state, r).text(),
            );
        let mut i: usize = 0;
        while i < receives.len()
            invariant
                self@ == old(self)@,
                state == self@.store.state,
                all == invoiced_view(receives@),
                wanted == (|r: Invoiced|
                    r.finished && !state.reported_lightning_receives.contains(
                        receive_identifier(state, r).text(),
                    )),
                i <= receives@.len(),
                forall|j: int| 0 <= j < i ==> !wanted(#[trigger] all[j]),
            decreases receives@.len() - i,
        {
            let receive = &receives[i];
            proof {
                assert(all[i as int] == receive@);
            }
            if receive.finished {
                let identifier = self.find_identifier(receive);
                let lookup_id = identifier.text();
                if !self.state_store.is_lightning_receive_reported(lookup_id.as_str()) {
                    proof {
                        lemma_first_is(all, wanted, i as int);
                    }
                    self.state_store.mark_lightning_receive_reported(lookup_id.as_str());
                    return Some(
                        PaymentEvent::PaymentReceived(lightning_response(identifier, receive)),
                    );
                }
            }
            i += 1;
        }
        proof {
            lemma_no_first(all, wanted);
        }
        None
    }

    /// Decides how the status of an incoming payment is found.
    pub fn check_incoming_payment_status(&self, payment_identifier: &PaymentIdentifier) -> (r:
        Result<IncomingCheck, PaymentError>)
        ensures
            ({
                let quotes = self@.store.state.lightning_receive_quotes;
                match payment_identifier@ {
                    Identifier::QuoteId(id) => if quotes.dom().contains(id) {
                        match stored_hash(quotes[id]) {
                            Ok(hash) => r matches Ok(IncomingCheck::Lightning { payment_hash })
                                && payment_hash@ == hash,
                            Err(f) => r matches Err(e) && e@ == f,
                        }
                    } else {
                        r matches Ok(IncomingCheck::Onchain { quote_id }) && quote_id@ == id
                    },
                    Identifier::PaymentHash(hash) => r matches Ok(
                        IncomingCheck::Lightning { payment_hash },
                    ) && payment_hash@ == hash,
                    Identifier::Other => r matches Err(e) && e@ == Failure::Custom(
                        "Unsupported payment identifier type"@,
                    ),
                }
            }),
    {
        match payment_identifier {
            PaymentIdentifier::QuoteId(id) => {
                match self.state_store.get_lightning_receive_hash(id.as_str()) {
                    Some(hash) => match parse_payment_hash_hex(hash.as_str()) {
                        Ok(payment_hash) => Ok(IncomingCheck::Lightning { payment_hash }),
                        Err(e) => Err(e),
                    },
                    None => Ok(IncomingCheck::Onchain { quote_id: id.clone() }),
                }
            },
            PaymentIdentifier::PaymentHash(hash) => Ok(
                IncomingCheck::Lightning { payment_hash: copy_bytes(hash) },
            ),
            PaymentIdentifier::Other => Err(
                PaymentError::Custom("Unsupported payment identifier type".to_owned()),
            ),
        }
    }

    /// Decides how the status of an outgoing payment is found. The on-chain payments were
    /// reconciled before, and one that is confirmed is noted as told.
    pub fn check_outgoing_payment(&mut self, payment_identifier: &PaymentIdentifier) -> (r: Result<
        OutgoingCheck,
        PaymentError,
    >)
        ensures
            ({
                let state = old(self)@.store.state;
                match payment_identifier@ {
                    Identifier::QuoteId(id) => if state.sends.dom().contains(id) {
                        &&& r matches Ok(OutgoingCheck::Known(response)) && response@
                            == send_response(id, state.sends[id])
                        &&& final(self)@ == if state.sends[id].state is Confirmed {
                            old(self)@.put(StateRow::SendCompleted { quote_id: id })
                        } else {
                            old(self)@
                        }
                    } else {
                        &&& final(self)@ == old(self)@
                        &&& match lightning_send_for(state, id) {
                            Some((hash, _)) => r matches Ok(
                                OutgoingCheck::Lightning { payment_hash },
                            ) && payment_hash@ == hash,
                            None => r matches Err(e) && e@ == Failure::Custom(
                                "No outgoing payment found for quote "@ + id,
                            ),
                        }
                    },
                    _ => r matches Err(e) && e@ == Failure::Custom(
                        "Outgoing payment status must be checked by quote id"@,
                    ) && final(self)@ == old(self)@,
                }
            }),
    {
        match payment_identifier {
            PaymentIdentifier::QuoteId(id) => {
                if let Some(response) = self.check_onchain_send(id.as_str(), true) {
                    return Ok(OutgoingCheck::Known(response));
                }
                match self.state_store.lightning_send_for_quote(id.as_str()) {
                    Some((payment_hash, _send)) => Ok(OutgoingCheck::Lightning { payment_hash }),
                    None => Err(
                        PaymentError::Custom(
                            cat2("No outgoing payment found for quote ", id.as_str()),
                        ),
                    ),
                }
            },
            _ => Err(
                PaymentError::Custom(
                    "Outgoing payment status must be checked by quote id".to_owned(),
                ),
            ),
        }
    }

    /// Starts the stream of payment events.
    pub fn wait_payment_event(&mut self)
        ensures
            final(self)@ == (BackendView { active: true, ..old(self)@ }),
    {
        self.wait_invoice_active = true;
    }
}

fn lightning_response(payment_identifier: PaymentIdentifier, receive: &LightningReceive) -> (r:
    WaitPaymentResponse)
    ensures
        r@ == lightning_received(payment_identifier@, receive@),
{
    let amount_sat: u64 = match receive.amount_msat {
        Some(msat) => msat / 1000,
        None => 0,
    };
    WaitPaymentResponse {
        payment_identifier,
        amount_sat,
        payment_id: hex_encode(&receive.payment_hash),
    }
}

/// The mint is told of a Lightning receive at most once: what was reported is not the next to
/// report, and it stays reported whatever is written.
pub proof fn law_lightning_receive_reported_once(
    state: ArkState,
    receives: Seq<Invoiced>,
    lookup_id: Seq<char>,
    row: StateRow,
)
    requires
        state.reported_lightning_receives.contains(lookup_id),
    ensures
        next_lightning_receive(state, receives) matches Some(r) ==> receive_identifier(
            state,
            r,
        ).text() != lookup_id,
        state.written(row).reported_lightning_receives.contains(lookup_id),
{
    let wanted = |r: Invoiced|
        r.finished && !state.reported_lightning_receives.contains(
            receive_identifier(state, r).text(),
        );
    lemma_found(receives, wanted);
}

// ---- the order of the sources of events -----------------------------------------------------

/// Where events come from.
#[derive(Clone, Copy, Debug, PartialEq, Eq, Structural)]
pub enum EventSource {
    LightningReceives,
    OnchainReceives,
    LightningSends,
    OnchainSends,
}

/// The source to ask after one that had no event. An event, or the last source, ends the round.
pub open spec fn source_after(source: EventSource, had_event: bool) -> Option<EventSource> {
    if had_event {
        None
    } else {
        match source {
            EventSource::LightningReceives => Some(EventSource::OnchainReceives),
            EventSource::OnchainReceives => Some(EventSource::LightningSends),
            EventSource::LightningSends => Some(EventSource::OnchainSends),
            EventSource::OnchainSends => None,
        }
    }
}

/// The source that a round of polling begins with. A stream that was stopped begins none.
pub open spec fn round_source(active: bool) -> Option<EventSource> {
    if active {
        Some(EventSource::LightningReceives)
    } else {
        None
    }
}

impl ArkBackend {
    /// The source that a round of polling begins with, unless the stream was stopped.
    pub fn first_source(&self) -> (source: Option<EventSource>)
        ensures
            source == round_source(self@.active),
    {
        if self.wait_invoice_active {
            Some(EventSource::LightningReceives)
        } else {
            None
        }
    }
}

/// Decides which source to ask next.
pub fn next_source(source: EventSource, had_event: bool) -> (next: Option<EventSource>)
    ensures
        next == source_after(source, had_event),
{
    if had_event {
        return None;
    }
    match source {
        EventSource::LightningReceives => Some(EventSource::OnchainReceives),
        EventSource::OnchainReceives => Some(EventSource::LightningSends),
        EventSource::LightningSends => Some(EventSource::OnchainSends),
        EventSource::OnchainSends => None,
    }
}

/// What is kept of a quote is the quote's own board: its id, its key, its expiry, its script, which
/// can be read back, its address and the URI that was handed out.
pub proof fn law_record_is_of_the_board(board: Advertised, uri: Seq<char>)
    ensures
        quote_record(board, uri).quote_id == board.quote_id,
        quote_record(board, uri).keypair_index == board.keypair_index,
        quote_record(board, uri).expiry_height == board.expiry_height,
        unhex(quote_record(board, uri).board_script_hex) == Some(board.script),
        quote_record(board, uri).board_address == board.address,
        quote_record(board, uri).bip21_uri == uri,
{
    law_hex_reads_back(board.script);
}

/// What the mint is told of a Lightning receive is under the given identifier, in whole satoshis
/// with the rest dropped, and with the payment hash, which can be read back, as the payment.
pub proof fn law_lightning_credit_is_what_was_paid(identifier: Identifier, receive: Invoiced)
    ensures
        ({
            let told = lightning_received(identifier, receive);
            &&& told.identifier == identifier
            &&& receive.amount_msat matches Some(msat) ==> told.amount_sat * 1000 <= msat && msat
                < told.amount_sat * 1000 + 1000
            &&& receive.amount_msat is None ==> told.amount_sat == 0
            &&& unhex(told.payment_id) == Some(receive.payment_hash)
        }),
{
    law_hex_reads_back(receive.payment_hash);
}

/// The mint knows a receive by a quote that an invoice with its hash was handed out for, where that
/// quote's id can be read, and else by the hash.
pub proof fn law_receive_is_known_by_its_quote(
    state: ArkState,
    receive: Invoiced,
    own: Seq<char>,
)
    requires
        state.is_sound(),
    ensures
        match receive_identifier(state, receive) {
            Identifier::QuoteId(id) => exists|q: Seq<char>| #[trigger]
                state.lightning_receive_quotes.dom().contains(q)
                    && state.lightning_receive_quotes[q] == hex_text(receive.payment_hash)
                    && quote_id_parsed(q) == Ok::<Seq<char>, Seq<char>>(id),
            Identifier::PaymentHash(hash) => hash == receive.payment_hash,
            Identifier::Other => false,
        },
        (forall|q: Seq<char>| #[trigger]
            state.lightning_receive_quotes.dom().contains(q) ==> state.lightning_receive_quotes[q]
                != hex_text(receive.payment_hash)) ==> receive_identifier(state, receive)
            == Identifier::PaymentHash(receive.payment_hash),
        state.lightning_receive_quotes.dom().contains(own) && state.lightning_receive_quotes[own]
            == hex_text(receive.payment_hash) && (forall|q: Seq<char>| #[trigger]
            state.lightning_receive_quotes.dom().contains(q) && q != own
                ==> state.lightning_receive_quotes[q] != hex_text(receive.payment_hash)) ==> (
        match quote_id_parsed(own) {
            Ok(id) => receive_identifier(state, receive) == Identifier::QuoteId(id),
            Err(_) => receive_identifier(state, receive) == Identifier::PaymentHash(
                receive.payment_hash,
            ),
        }),
{
    law_quote_is_found_by_its_hash(state, hex_text(receive.payment_hash));
}

/// Where the stored id of a quote can be read, the mint knows the receive by what was read, and in
/// every other case by the hash.
pub proof fn law_identifier_is_what_was_read(id: Seq<char>, error: Seq<char>, hash: Seq<u8>)
    ensures
        identifier_for(Some(Ok(id)), hash) == Identifier::QuoteId(id),
        identifier_for(Some(Err(error)), hash) == Identifier::PaymentHash(hash),
        identifier_for(None, hash) == Identifier::PaymentHash(hash),
        Identifier::QuoteId(id).text() == id,
        unhex(Identifier::PaymentHash(hash).text()) == Some(hash),
        Identifier::Other.text() == Seq::<char>::empty(),
{
    law_hex_reads_back(hash);
}

/// The next receive to tell the mint of is the first of those that are finished and that it was not
/// told of, and there is one as long as there is such a receive.
pub proof fn law_next_receive_is_finished(state: ArkState, receives: Seq<Invoiced>)
    ensures
        match next_lightning_receive(state, receives) {
            Some(r) => exists|i: int|
                0 <= i < receives.len() && #[trigger] receives[i] == r && r.finished
                    && !state.reported_lightning_receives.contains(
                    receive_identifier(state, r).text(),
                ) && forall|j: int|
                    0 <= j < i && (#[trigger] receives[j]).finished
                        ==> state.reported_lightning_receives.contains(
                        receive_identifier(state, receives[j]).text(),
                    ),
            None => forall|j: int|
                0 <= j < receives.len() && (#[trigger] receives[j]).finished
                    ==> state.reported_lightning_receives.contains(
                    receive_identifier(state, receives[j]).text(),
                ),
        },
{
    let wanted = |r: Invoiced|
        r.finished && !state.reported_lightning_receives.contains(
            receive_identifier(state, r).text(),
        );
    lemma_found(receives, wanted);
    if next_lightning_receive(state, receives) is Some {
        let at = lemma_first_found(receives, wanted);
        assert forall|j: int|
            0 <= j < at && (#[trigger] receives[j]).finished implies state.reported_lightning_receives.contains(
        receive_identifier(state, receives[j]).text()) by {
            assert(!wanted(receives[j]));
        }
    } else {
        assert forall|j: int|
            0 <= j < receives.len()
                && (#[trigger] receives[j]).finished implies state.reported_lightning_receives.contains(
        receive_identifier(state, receives[j]).text()) by {
            assert(!wanted(receives[j]));
        }
    }
}

/// What several receives say is what each of them says, field by field and in their order.
pub proof fn law_receives_say_what_they_hold(v: Seq<LightningReceive>, i: int)
    requires
        0 <= i < v.len(),
    ensures
        invoiced_view(v).len() == v.len(),
        invoiced_view(v)[i].payment_hash == v[i].payment_hash@,
        invoiced_view(v)[i].finished == v[i].finished,
        invoiced_view(v)[i].amount_msat == v[i].amount_msat,
{
}

/// A round of polling asks every source, each once, until one has an event: what was received before
/// what was sent, and Lightning before the chain. A stream that was stopped asks none.
pub proof fn law_every_source_is_asked(source: EventSource)
    ensures
        source_after(source, true) is None,
        round_source(false) is None,
        ({
            let first = round_source(true);
            let second = source_after(first->0, false);
            let third = source_after(second->0, false);
            let fourth = source_after(third->0, false);
            &&& first == Some(EventSource::LightningReceives)
            &&& second == Some(EventSource::OnchainReceives)
            &&& third == Some(EventSource::LightningSends)
            &&& fourth == Some(EventSource::OnchainSends)
            &&& source_after(fourth->0, false) is None
        }),
{
}

/// Another on-ramp store changes nothing else of the processor.
pub proof fn law_onramp_is_on_its_own(backend: BackendView, onramp: OnRampView)
    ensures
        backend.with_onramp(onramp).receiver.onramp == onramp,
        backend.with_onramp(onramp).store == backend.store,
        backend.with_onramp(onramp).network == backend.network,
        backend.with_onramp(onramp).active == backend.active,
        backend.with_onramp(onramp).min_board_amount_sat == backend.min_board_amount_sat,
        backend.with_onramp(onramp).receiver == (ReceiverView {
            onramp: backend.with_onramp(onramp).receiver.onramp,
            ..backend.receiver
        }),
{
}

/// A board is refused with what the wallet said, or with the quote and the script that was handed out
/// before.
pub proof fn law_refused_boards_are_named(error: String, quote_id: Seq<char>, script_hex: Seq<char>)
    ensures
        not_derived(DeriveFailure::Keypair(error)) == Failure::Custom(
            "Failed to derive board keypair: "@ + error@,
        ),
        not_derived(DeriveFailure::Address(error)) == Failure::Custom(
            "Failed to derive board funding address: "@ + error@,
        ),
        script_reused(quote_id, script_hex) == Failure::Custom(
            "no-address-reuse guard rejected board script for quote "@ + quote_id + ": "@
                + "no-address-reuse violation: script "@ + script_hex + " was already advertised"@,
        ),
{
    assert(script_reused(quote_id, script_hex)->Custom_0
        =~= "no-address-reuse guard rejected board script for quote "@ + quote_id + ": "@
        + "no-address-reuse violation: script "@ + script_hex + " was already advertised"@);
}

} // verus!
