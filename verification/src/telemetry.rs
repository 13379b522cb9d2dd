//! Telemetry for the on-ramp dashboard: one event for each thing that really happened.

use crate::text::{
    cat2, law_end_slashes_are_taken, opt_text, texts, trim_end_slashes, without_end_slashes,
};
use vstd::prelude::*;

verus! {

/// How far an on-ramp run has come.
#[derive(Clone, Copy, Debug, PartialEq, Eq, Structural)]
pub enum OnRampStage {
    QuoteCreated,
    PayjoinReceived,
    ProposalSent,
    BoardBroadcast,
    BoardConfirmed,
    EcashIssued,
}

impl OnRampStage {
    /// The name of a stage on the wire.
    pub open spec fn name(self) -> Seq<char> {
        match self {
            OnRampStage::QuoteCreated => "quote_created"@,
            OnRampStage::PayjoinReceived => "payjoin_received"@,
            OnRampStage::ProposalSent => "proposal_sent"@,
            OnRampStage::BoardBroadcast => "board_broadcast"@,
            OnRampStage::BoardConfirmed => "board_confirmed"@,
            OnRampStage::EcashIssued => "ecash_issued"@,
        }
    }

    /// Writes the name of a stage as it goes on the wire.
    pub fn wire_name(&self) -> (out: String)
        ensures
            out@ == self.name(),
    {
        match self {
            OnRampStage::QuoteCreated => "quote_created".to_owned(),
            OnRampStage::PayjoinReceived => "payjoin_received".to_owned(),
            OnRampStage::ProposalSent => "proposal_sent".to_owned(),
            OnRampStage::BoardBroadcast => "board_broadcast".to_owned(),
            OnRampStage::BoardConfirmed => "board_confirmed".to_owned(),
            OnRampStage::EcashIssued => "ecash_issued".to_owned(),
        }
    }
}

/// What is known of a run at an event.
#[derive(Debug)]
pub struct OnRampEventData {
    pub board_address: Option<String>,
    pub board_txid: Option<String>,
    pub vtxo_amount_sat: Option<u64>,
    pub ecash_amount_sat: Option<u64>,
    pub vtxo_ids: Vec<String>,
}

/// What an [`OnRampEventData`] says.
pub struct EventData {
    pub board_address: Option<Seq<char>>,
    pub board_txid: Option<Seq<char>>,
    pub vtxo_amount_sat: Option<u64>,
    pub ecash_amount_sat: Option<u64>,
    pub vtxo_ids: Seq<Seq<char>>,
}

impl EventData {
    /// Nothing known.
    pub open spec fn empty() -> EventData {
        EventData {
            board_address: None,
            board_txid: None,
            vtxo_amount_sat: None,
            ecash_amount_sat: None,
            vtxo_ids: Seq::empty(),
        }
    }
}

impl View for OnRampEventData {
    type V = EventData;

    open spec fn view(&self) -> EventData {
        EventData {
            board_address: opt_text(self.board_address),
            board_txid: opt_text(self.board_txid),
            vtxo_amount_sat: self.vtxo_amount_sat,
            ecash_amount_sat: self.ecash_amount_sat,
            vtxo_ids: texts(self.vtxo_ids@),
        }
    }
}

impl Default for OnRampEventData {
    fn default() -> (out: Self)
        ensures
            out@ == EventData::empty(),
    {
        let out = OnRampEventData {
            board_address: None,
            board_txid: None,
            vtxo_amount_sat: None,
            ecash_amount_sat: None,
            vtxo_ids: Vec::new(),
        };
        proof {
            assert(texts(out.vtxo_ids@) =~= Seq::empty());
        }
        out
    }
}

/// An event for the dashboard.
#[derive(Debug)]
pub struct OnRampEvent {
    pub run_id: String,
    pub quote_id: String,
    pub stage: OnRampStage,
    pub data: OnRampEventData,
}

/// What an [`OnRampEvent`] says.
pub struct TelemetryEvent {
    pub run_id: Seq<char>,
    pub quote_id: Seq<char>,
    pub stage: OnRampStage,
    pub data: EventData,
}

impl View for OnRampEvent {
    type V = TelemetryEvent;

    open spec fn view(&self) -> TelemetryEvent {
        TelemetryEvent {
            run_id: self.run_id@,
            quote_id: self.quote_id@,
            stage: self.stage,
            data: self.data@,
        }
    }
}

/// An event of a run named by its quote.
pub open spec fn event_of(quote_id: Seq<char>, stage: OnRampStage, data: EventData) -> TelemetryEvent {
    TelemetryEvent { run_id: quote_id, quote_id, stage, data }
}

/// What each of several events says.
pub open spec fn events_view(v: Seq<OnRampEvent>) -> Seq<TelemetryEvent> {
    v.map_values(|e: OnRampEvent| e@)
}

impl OnRampEvent {
    /// An event of the run for a quote, with nothing attached.
    pub fn new(quote_id: &str, stage: OnRampStage) -> (event: Self)
        ensures
            event@ == event_of(quote_id@, stage, EventData::empty()),
    {
        OnRampEvent {
            run_id: quote_id.to_owned(),
            quote_id: quote_id.to_owned(),
            stage,
            data: OnRampEventData::default(),
        }
    }

    /// Attaches the board funding address.
    pub fn with_board_address(self, address: &str) -> (event: Self)
        ensures
            event@ == (TelemetryEvent {
                data: EventData { board_address: Some(address@), ..self@.data },
                ..self@
            }),
    {
        OnRampEvent {
            data: OnRampEventData { board_address: Some(address.to_owned()), ..self.data },
            ..self
        }
    }

    /// Attaches the board funding transaction.
    pub fn with_board_txid(self, txid: &str) -> (event: Self)
        ensures
            event@ == (TelemetryEvent {
                data: EventData { board_txid: Some(txid@), ..self@.data },
                ..self@
            }),
    {
        OnRampEvent {
            data: OnRampEventData { board_txid: Some(txid.to_owned()), ..self.data },
            ..self
        }
    }

    /// Attaches the boarded amount, by which the mint's reserve grew.
    pub fn with_vtxo_amount_sat(self, sat: u64) -> (event: Self)
        ensures
            event@ == (TelemetryEvent {
                data: EventData { vtxo_amount_sat: Some(sat), ..self@.data },
                ..self@
            }),
    {
        OnRampEvent {
            data: OnRampEventData { vtxo_amount_sat: Some(sat), ..self.data },
            ..self
        }
    }

    /// Attaches the credited amount, by which the user's ecash grew.
    pub fn with_ecash_amount_sat(self, sat: u64) -> (event: Self)
        ensures
            event@ == (TelemetryEvent {
                data: EventData { ecash_amount_sat: Some(sat), ..self@.data },
                ..self@
            }),
    {
        OnRampEvent {
            data: OnRampEventData { ecash_amount_sat: Some(sat), ..self.data },
            ..self
        }
    }

    /// Attaches the ids of the boarded VTXOs.
    pub fn with_vtxo_ids(self, ids: Vec<String>) -> (event: Self)
        ensures
            event@ == (TelemetryEvent {
                data: EventData { vtxo_ids: texts(ids@), ..self@.data },
                ..self@
            }),
    {
        OnRampEvent { data: OnRampEventData { vtxo_ids: ids, ..self.data }, ..self }
    }
}

/// Where events are sent.
pub struct TelemetryClient {
    control_url: String,
}

impl View for TelemetryClient {
    type V = Seq<char>;

    closed spec fn view(&self) -> Seq<char> {
        self.control_url@
    }
}

/// The URL that events are posted to, below a control URL that may end in slashes.
pub open spec fn event_endpoint(control_url: Seq<char>) -> Seq<char> {
    without_end_slashes(control_url) + "/onramp/event"@
}

impl TelemetryClient {
    /// A client that posts below `control_url`.
    pub fn new(control_url: String) -> (client: Self)
        ensures
            client@ == control_url@,
    {
        TelemetryClient { control_url }
    }

    /// The URL that events are posted to.
    pub fn event_url(&self) -> (url: String)
        ensures
            url@ == event_endpoint(self@),
    {
        cat2(trim_end_slashes(self.control_url.as_str()).as_str(), "/onramp/event")
    }

    /// The request for an event: where it is posted, and what. Delivery is left to the caller, who
    /// drops failures.
    pub fn emit(&self, event: OnRampEvent) -> (request: (String, OnRampEvent))
        ensures
            request.0@ == event_endpoint(self@),
            request.1@ == event@,
    {
        (self.event_url(), event)
    }
}

impl Clone for TelemetryClient {
    fn clone(&self) -> (out: Self)
        ensures
            out@ == self@,
    {
        TelemetryClient { control_url: self.control_url.clone() }
    }
}

/// An event is of the run named by its quote, at the given stage and with the given facts.
pub proof fn law_event_is_of_the_quote(quote_id: Seq<char>, stage: OnRampStage, data: EventData)
    ensures
        event_of(quote_id, stage, data).run_id == quote_id,
        event_of(quote_id, stage, data).quote_id == quote_id,
        event_of(quote_id, stage, data).stage == stage,
        event_of(quote_id, stage, data).data == data,
{
}

/// Two stages have two names on the wire.
pub proof fn law_stages_are_told_apart(one: OnRampStage, two: OnRampStage)
    ensures
        one.name() == two.name() ==> one == two,
{
    reveal_strlit("quote_created");
    reveal_strlit("payjoin_received");
    reveal_strlit("proposal_sent");
    reveal_strlit("board_broadcast");
    reveal_strlit("board_confirmed");
    reveal_strlit("ecash_issued");
    assert("quote_created"@[0] == 'q' && "payjoin_received"@[1] == 'a' && "proposal_sent"@[1]
        == 'r');
    assert("payjoin_received"@[0] == 'p' && "proposal_sent"@[0] == 'p' && "ecash_issued"@[0] == 'e');
    assert("board_broadcast"@[0] == 'b' && "board_confirmed"@[0] == 'b');
    assert("board_broadcast"@[6] == 'b' && "board_confirmed"@[6] == 'c');
}

/// Slashes at the end of the control URL do not change where events are posted, which is always at
/// the same path below it.
pub proof fn law_endpoint_is_below_the_control_url(control_url: Seq<char>)
    ensures
        event_endpoint(control_url.push('/')) == event_endpoint(control_url),
        control_url.len() > 0 && control_url.last() != '/' ==> event_endpoint(control_url)
            == control_url + "/onramp/event"@,
        "/onramp/event"@.is_suffix_of(event_endpoint(control_url)),
{
    law_end_slashes_are_taken(control_url);
    let path = "/onramp/event"@;
    let url = event_endpoint(control_url);
    assert(path =~= url.subrange(url.len() - path.len(), url.len() as int));
}

/// What an [`OnRampEventData`] says is what its fields hold, each under its own name.
pub proof fn law_on_ramp_event_data_says_what_it_holds(x: OnRampEventData)
    ensures
        x@.board_address == opt_text(x.board_address),
        x@.board_txid == opt_text(x.board_txid),
        x@.vtxo_amount_sat == x.vtxo_amount_sat,
        x@.ecash_amount_sat == x.ecash_amount_sat,
        x@.vtxo_ids == texts(x.vtxo_ids@),
{
}

/// What an [`OnRampEvent`] says is what its fields hold, each under its own name.
pub proof fn law_on_ramp_event_says_what_it_holds(x: OnRampEvent)
    ensures
        x@.run_id == x.run_id@,
        x@.quote_id == x.quote_id@,
        x@.stage == x.stage,
        x@.data == x.data@,
{
}

/// Several events are said each in its place.
pub proof fn law_events_are_said_in_order(v: Seq<OnRampEvent>, i: int)
    requires
        0 <= i < v.len(),
    ensures
        events_view(v).len() == v.len(),
        events_view(v)[i] == v[i]@,
{
}

} // verus!
