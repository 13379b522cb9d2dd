//! What the mint asks of the processor and what it is told: identifiers, responses, events and
//! errors. All amounts are in satoshis.

use crate::adapters::{hex_encode, hex_text};
use crate::text::{copy_opt, opt_text};
use vstd::prelude::*;

verus! {

/// Why a request is refused or fails.
#[derive(Debug)]
pub enum PaymentError {
    Custom(String),
    UnsupportedUnit,
    UnsupportedPaymentOption,
}

/// What a [`PaymentError`] says.
pub enum Failure {
    Custom(Seq<char>),
    UnsupportedUnit,
    UnsupportedPaymentOption,
}

impl View for PaymentError {
    type V = Failure;

    open spec fn view(&self) -> Failure {
        match self {
            PaymentError::Custom(text) => Failure::Custom(text@),
            PaymentError::UnsupportedUnit => Failure::UnsupportedUnit,
            PaymentError::UnsupportedPaymentOption => Failure::UnsupportedPaymentOption,
        }
    }
}

/// What a result without a value says.
pub open spec fn unit_result(r: Result<(), PaymentError>) -> Result<(), Failure> {
    match r {
        Ok(_) => Ok(()),
        Err(e) => Err(e@),
    }
}

/// By what a payment is known. Only quote ids and payment hashes are dealt with.
#[derive(Debug)]
pub enum PaymentIdentifier {
    QuoteId(String),
    PaymentHash(Vec<u8>),
    Other,
}

/// What a [`PaymentIdentifier`] says.
pub enum Identifier {
    QuoteId(Seq<char>),
    PaymentHash(Seq<u8>),
    Other,
}

impl Identifier {
    /// An identifier as text: the quote id, or the hash in hex.
    pub open spec fn text(self) -> Seq<char> {
        match self {
            Identifier::QuoteId(id) => id,
            Identifier::PaymentHash(hash) => hex_text(hash),
            Identifier::Other => Seq::empty(),
        }
    }
}

impl View for PaymentIdentifier {
    type V = Identifier;

    open spec fn view(&self) -> Identifier {
        match self {
            PaymentIdentifier::QuoteId(id) => Identifier::QuoteId(id@),
            PaymentIdentifier::PaymentHash(hash) => Identifier::PaymentHash(hash@),
            PaymentIdentifier::Other => Identifier::Other,
        }
    }
}

impl PaymentIdentifier {
    /// Writes an identifier as text.
    pub fn text(&self) -> (out: String)
        ensures
            out@ == self@.text(),
    {
        match self {
            PaymentIdentifier::QuoteId(id) => id.clone(),
            PaymentIdentifier::PaymentHash(hash) => hex_encode(hash),
            PaymentIdentifier::Other => String::new(),
        }
    }
}

/// A copy of some bytes.
pub fn copy_bytes(v: &Vec<u8>) -> (out: Vec<u8>)
    ensures
        out@ == v@,
{
    let mut out: Vec<u8> = Vec::new();
    let mut i: usize = 0;
    while i < v.len()
        invariant
            i <= v@.len(),
            out@ == v@.take(i as int),
        decreases v@.len() - i,
    {
        out.push(v[i]);
        i += 1;
    }
    proof {
        assert(v@.take(i as int) =~= v@);
    }
    out
}

impl Clone for PaymentIdentifier {
    fn clone(&self) -> (out: Self)
        ensures
            out@ == self@,
    {
        match self {
            PaymentIdentifier::QuoteId(id) => PaymentIdentifier::QuoteId(id.clone()),
            PaymentIdentifier::PaymentHash(hash) => PaymentIdentifier::PaymentHash(
                copy_bytes(hash),
            ),
            PaymentIdentifier::Other => PaymentIdentifier::Other,
        }
    }
}

/// An incoming payment that is complete.
#[derive(Debug)]
pub struct WaitPaymentResponse {
    pub payment_identifier: PaymentIdentifier,
    pub amount_sat: u64,
    pub payment_id: String,
}

/// What a [`WaitPaymentResponse`] says.
pub struct Received {
    pub identifier: Identifier,
    pub amount_sat: u64,
    pub payment_id: Seq<char>,
}

impl View for WaitPaymentResponse {
    type V = Received;

    open spec fn view(&self) -> Received {
        Received {
            identifier: self.payment_identifier@,
            amount_sat: self.amount_sat,
            payment_id: self.payment_id@,
        }
    }
}

/// What each of several incoming payments says.
pub open spec fn received_view(v: Seq<WaitPaymentResponse>) -> Seq<Received> {
    v.map_values(|r: WaitPaymentResponse| r@)
}

/// Where an outgoing payment stands.
#[derive(Clone, Copy, Debug, PartialEq, Eq, Structural)]
pub enum MeltQuoteState {
    Unpaid,
    Paid,
    Pending,
}

/// What the mint is told of an outgoing payment.
#[derive(Debug)]
pub struct MakePaymentResponse {
    pub payment_lookup_id: PaymentIdentifier,
    pub payment_proof: Option<String>,
    pub status: MeltQuoteState,
    pub total_spent_sat: u64,
}

/// What a [`MakePaymentResponse`] says.
pub struct Sent {
    pub lookup_id: Identifier,
    pub proof_text: Option<Seq<char>>,
    pub status: MeltQuoteState,
    pub total_spent_sat: u64,
}

impl View for MakePaymentResponse {
    type V = Sent;

    open spec fn view(&self) -> Sent {
        Sent {
            lookup_id: self.payment_lookup_id@,
            proof_text: opt_text(self.payment_proof),
            status: self.status,
            total_spent_sat: self.total_spent_sat,
        }
    }
}

/// Something that the mint has to know.
#[derive(Debug)]
pub enum PaymentEvent {
    PaymentReceived(WaitPaymentResponse),
    PaymentSuccessful { quote_id: String, details: MakePaymentResponse },
    PaymentFailed { quote_id: String, reason: String },
}

/// What a [`PaymentEvent`] says.
pub enum News {
    Received(Received),
    Successful { quote_id: Seq<char>, details: Sent },
    Failed { quote_id: Seq<char>, reason: Seq<char> },
}

impl View for PaymentEvent {
    type V = News;

    open spec fn view(&self) -> News {
        match self {
            PaymentEvent::PaymentReceived(r) => News::Received(r@),
            PaymentEvent::PaymentSuccessful { quote_id, details } => News::Successful {
                quote_id: quote_id@,
                details: details@,
            },
            PaymentEvent::PaymentFailed { quote_id, reason } => News::Failed {
                quote_id: quote_id@,
                reason: reason@,
            },
        }
    }
}

/// A fee that the mint may choose for an on-chain payment.
#[derive(Clone, Copy, Debug, PartialEq, Eq, Structural)]
pub struct FeeOption {
    pub fee_index: u32,
    pub fee_reserve_sat: u64,
    pub estimated_blocks: u32,
}

/// What an outgoing payment would cost.
#[derive(Debug)]
pub struct PaymentQuoteResponse {
    pub request_lookup_id: PaymentIdentifier,
    pub amount_sat: u64,
    pub fee_sat: u64,
    pub state: MeltQuoteState,
    pub estimated_blocks: Option<u32>,
    pub fee_option: Option<FeeOption>,
}

/// What a [`PaymentQuoteResponse`] says.
pub struct PaymentQuote {
    pub lookup_id: Identifier,
    pub amount_sat: u64,
    pub fee_sat: u64,
    pub state: MeltQuoteState,
    pub estimated_blocks: Option<u32>,
    pub fee_option: Option<FeeOption>,
}

impl View for PaymentQuoteResponse {
    type V = PaymentQuote;

    open spec fn view(&self) -> PaymentQuote {
        PaymentQuote {
            lookup_id: self.request_lookup_id@,
            amount_sat: self.amount_sat,
            fee_sat: self.fee_sat,
            state: self.state,
            estimated_blocks: self.estimated_blocks,
            fee_option: self.fee_option,
        }
    }
}

/// A request that the payer of an incoming payment is given.
#[derive(Debug)]
pub struct CreateIncomingPaymentResponse {
    pub request_lookup_id: PaymentIdentifier,
    pub request: String,
    pub expiry: Option<u64>,
    /// The board funding address, for an on-chain request.
    pub board_address: Option<String>,
}

/// What a [`CreateIncomingPaymentResponse`] says.
pub struct IncomingRequest {
    pub lookup_id: Identifier,
    pub request: Seq<char>,
    pub expiry: Option<u64>,
    pub board_address: Option<Seq<char>>,
}

impl View for CreateIncomingPaymentResponse {
    type V = IncomingRequest;

    open spec fn view(&self) -> IncomingRequest {
        IncomingRequest {
            lookup_id: self.request_lookup_id@,
            request: self.request@,
            expiry: self.expiry,
            board_address: opt_text(self.board_address),
        }
    }
}

impl CreateIncomingPaymentResponse {
    /// The additional facts of an on-chain request, as names and values.
    pub fn extra(&self) -> (facts: Option<Vec<(String, String)>>)
        ensures
            match facts {
                Some(f) => self@.board_address is Some && f@.len() == 3 && f@[0].0@
                    == "fee_policy"@ && f@[0].1@
                    == "bark_board_fee_deducted_from_received_amount"@ && f@[1].0@ == "onramp"@
                    && f@[1].1@ == "payjoin_board"@ && f@[2].0@ == "board_address"@
                    && f@[2].1@ == self@.board_address->0,
                None => self@.board_address is None,
            },
    {
        match copy_opt(&self.board_address) {
            Some(address) => {
                let mut facts: Vec<(String, String)> = Vec::new();
                facts.push(
                    (
                        "fee_policy".to_owned(),
                        "bark_board_fee_deducted_from_received_amount".to_owned(),
                    ),
                );
                facts.push(("onramp".to_owned(), "payjoin_board".to_owned()));
                facts.push(("board_address".to_owned(), address));
                Some(facts)
            },
            None => None,
        }
    }
}

/// What the processor can do.
#[derive(Debug)]
pub struct SettingsResponse {
    pub unit: String,
    pub bolt11_mpp: bool,
    pub bolt11_amountless: bool,
    pub bolt11_invoice_description: bool,
    pub onchain_confirmations: u32,
    pub onchain_min_receive_amount_sat: u64,
    pub onchain_min_send_amount_sat: u64,
}

/// What a [`PaymentIdentifier`] says is of its own kind, with what its fields hold.
pub proof fn law_payment_identifier_says_what_it_holds(x: PaymentIdentifier)
    ensures
        x is QuoteId <==> x@ is QuoteId,
        x matches PaymentIdentifier::QuoteId(id) ==> {
            &&& x@ matches Identifier::QuoteId(said)
            &&& said == id@
        },
        x is PaymentHash <==> x@ is PaymentHash,
        x matches PaymentIdentifier::PaymentHash(hash) ==> {
            &&& x@ matches Identifier::PaymentHash(said)
            &&& said == hash@
        },
        x is Other <==> x@ is Other,
{
}

/// What a [`WaitPaymentResponse`] says is what its fields hold, each under its own name.
pub proof fn law_wait_payment_response_says_what_it_holds(x: WaitPaymentResponse)
    ensures
        x@.identifier == x.payment_identifier@,
        x@.amount_sat == x.amount_sat,
        x@.payment_id == x.payment_id@,
{
}

/// What a [`MakePaymentResponse`] says is what its fields hold, each under its own name.
pub proof fn law_make_payment_response_says_what_it_holds(x: MakePaymentResponse)
    ensures
        x@.lookup_id == x.payment_lookup_id@,
        x@.proof_text == opt_text(x.payment_proof),
        x@.status == x.status,
        x@.total_spent_sat == x.total_spent_sat,
{
}

/// What a [`PaymentEvent`] says is of its own kind, with what its fields hold.
pub proof fn law_payment_event_says_what_it_holds(x: PaymentEvent)
    ensures
        x is PaymentReceived <==> x@ is Received,
        x matches PaymentEvent::PaymentReceived(r) ==> {
            &&& x@ matches News::Received(said)
            &&& said == r@
        },
        x is PaymentSuccessful <==> x@ is Successful,
        x matches PaymentEvent::PaymentSuccessful { quote_id, details } ==> {
            &&& x@ matches News::Successful { quote_id: said_quote_id, details: said_details }
            &&& said_quote_id == quote_id@
            &&& said_details == details@
        },
        x is PaymentFailed <==> x@ is Failed,
        x matches PaymentEvent::PaymentFailed { quote_id, reason } ==> {
            &&& x@ matches News::Failed { quote_id: said_quote_id, reason: said_reason }
            &&& said_quote_id == quote_id@
            &&& said_reason == reason@
        },
{
}

/// What a [`PaymentQuoteResponse`] says is what its fields hold, each under its own name.
pub proof fn law_payment_quote_response_says_what_it_holds(x: PaymentQuoteResponse)
    ensures
        x@.lookup_id == x.request_lookup_id@,
        x@.amount_sat == x.amount_sat,
        x@.fee_sat == x.fee_sat,
        x@.state == x.state,
        x@.estimated_blocks == x.estimated_blocks,
        x@.fee_option == x.fee_option,
{
}

/// What a [`CreateIncomingPaymentResponse`] says is what its fields hold, each under its own name.
pub proof fn law_create_incoming_payment_response_says_what_it_holds(
    x: CreateIncomingPaymentResponse,
)
    ensures
        x@.lookup_id == x.request_lookup_id@,
        x@.request == x.request@,
        x@.expiry == x.expiry,
        x@.board_address == opt_text(x.board_address),
{
}

/// Several incoming payments are said each in its place.
pub proof fn law_payments_are_said_in_order(v: Seq<WaitPaymentResponse>, i: int)
    requires
        0 <= i < v.len(),
    ensures
        received_view(v).len() == v.len(),
        received_view(v)[i] == v[i]@,
{
}

} // verus!
