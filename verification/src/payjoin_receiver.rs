//! The receiving side of the payjoin on-ramp: what to do with each session, which coins the mint
//! adds to a board, and what the user is credited.

use crate::payjoin_state::{OnRampStateStore, OnRampView, QuoteRecord};
use crate::pj_uri::{onramp_pj_uri, pjos_stripped};
use crate::seqs::values_of;
use crate::table::Table;
use crate::telemetry::{
    event_of, EventData, OnRampEvent, OnRampStage, TelemetryClient, TelemetryEvent,
};
use crate::text::{cat2, cat3, texts};
use vstd::prelude::*;

verus! {

// ---- configuration --------------------------------------------------------------------------

/// Where payjoin sessions run.
#[derive(Debug)]
pub struct PayjoinConfig {
    pub directory_url: String,
    pub ohttp_relay: String,
    /// The OHTTP key configuration of the directory, encoded. Without it no session can start.
    pub ohttp_keys: Option<Vec<u8>>,
    pub control_url: String,
}

/// What a [`PayjoinConfig`] says.
pub struct PayjoinSettings {
    pub directory_url: Seq<char>,
    pub ohttp_relay: Seq<char>,
    pub ohttp_keys: Option<Seq<u8>>,
    pub control_url: Seq<char>,
}

impl View for PayjoinConfig {
    type V = PayjoinSettings;

    open spec fn view(&self) -> PayjoinSettings {
        PayjoinSettings {
            directory_url: self.directory_url@,
            ohttp_relay: self.ohttp_relay@,
            ohttp_keys: match self.ohttp_keys {
                Some(k) => Some(k@),
                None => None,
            },
            control_url: self.control_url@,
        }
    }
}

/// What came of one step of a session.
#[derive(Debug)]
pub enum BoardResult {
    /// The board was cosigned and its proposal posted.
    Boarded {
        board_txid: String,
        /// The index of the board output.
        board_vout: u32,
        /// What the user is credited.
        net_sat: u64,
        /// The key of the deposit: the board output, as transaction id and index.
        deposit_outpoint: String,
        /// What the user paid in.
        gross_sat: u64,
        board_vtxo_ids: Vec<String>,
    },
    /// The board funding transaction is confirmed.
    Confirmed { board_txid: String, net_sat: u64 },
    /// The session went on, without a board yet.
    InProgress,
    /// There was nothing to do.
    Idle,
}

/// What a [`BoardResult`] says.
pub enum BoardOutcome {
    Boarded {
        board_txid: Seq<char>,
        board_vout: u32,
        net_sat: u64,
        deposit_outpoint: Seq<char>,
        gross_sat: u64,
        board_vtxo_ids: Seq<Seq<char>>,
    },
    Confirmed { board_txid: Seq<char>, net_sat: u64 },
    InProgress,
    Idle,
}

impl View for BoardResult {
    type V = BoardOutcome;

    open spec fn view(&self) -> BoardOutcome {
        match self {
            BoardResult::Boarded {
                board_txid,
                board_vout,
                net_sat,
                deposit_outpoint,
                gross_sat,
                board_vtxo_ids,
            } => BoardOutcome::Boarded {
                board_txid: board_txid@,
                board_vout: *board_vout,
                net_sat: *net_sat,
                deposit_outpoint: deposit_outpoint@,
                gross_sat: *gross_sat,
                board_vtxo_ids: texts(board_vtxo_ids@),
            },
            BoardResult::Confirmed { board_txid, net_sat } => BoardOutcome::Confirmed {
                board_txid: board_txid@,
                net_sat: *net_sat,
            },
            BoardResult::InProgress => BoardOutcome::InProgress,
            BoardResult::Idle => BoardOutcome::Idle,
        }
    }
}

/// A board that the wallet holds and that is not yet spendable.
#[derive(Debug)]
pub struct PendingBoard {
    pub funding_txid: String,
    /// The index of the board output in the funding transaction.
    pub board_vout: u32,
    /// The outpoints that the funding transaction spends.
    pub funding_inputs: Vec<String>,
    /// The value of the board's VTXOs.
    pub amount_sat: u64,
    pub vtxo_ids: Vec<String>,
}

/// What a [`PendingBoard`] says.
pub struct Board {
    pub funding_txid: Seq<char>,
    pub board_vout: u32,
    pub funding_inputs: Seq<Seq<char>>,
    pub amount_sat: u64,
    pub vtxo_ids: Seq<Seq<char>>,
}

impl View for PendingBoard {
    type V = Board;

    open spec fn view(&self) -> Board {
        Board {
            funding_txid: self.funding_txid@,
            board_vout: self.board_vout,
            funding_inputs: texts(self.funding_inputs@),
            amount_sat: self.amount_sat,
            vtxo_ids: texts(self.vtxo_ids@),
        }
    }
}

// ---- what the user is credited --------------------------------------------------------------

/// The credit for a deposit: what was paid in, what is credited, and the two fees between them.
pub struct Credit {
    pub gross: int,
    pub net: int,
    pub server_fee: int,
    pub deposit_fee: int,
}

/// The credit for a deposit `d` in a board of `board_value`, of which the server leaves
/// `vtxo_amount`, with a deposit fee in basis points of `d`.
pub open spec fn credit(d: u64, board_value: u64, vtxo_amount: u64, fee_bps: u64) -> Credit {
    let server_fee: int = if board_value > vtxo_amount {
        board_value - vtxo_amount
    } else {
        0
    };
    let rated: int = if d * fee_bps <= u64::MAX {
        d * fee_bps
    } else {
        u64::MAX as int
    };
    let deposit_fee: int = rated / 10_000;
    let net: int = if d >= server_fee + deposit_fee {
        d - server_fee - deposit_fee
    } else {
        0
    };
    Credit { gross: d as int, net, server_fee, deposit_fee }
}

/// What the user is credited for a board: gross, net, the server's fee and the mint's own fee.
pub fn credit_from_deposit(
    deposit_d_sat: u64,
    board_value_sat: u64,
    vtxo_amount_sat: u64,
    onchain_deposit_fee_bps: u64,
) -> (r: (u64, u64, u64, u64))
    ensures
        r.0 == credit(deposit_d_sat, board_value_sat, vtxo_amount_sat, onchain_deposit_fee_bps).gross,
        r.1 == credit(deposit_d_sat, board_value_sat, vtxo_amount_sat, onchain_deposit_fee_bps).net,
        r.2 == credit(
            deposit_d_sat,
            board_value_sat,
            vtxo_amount_sat,
            onchain_deposit_fee_bps,
        ).server_fee,
        r.3 == credit(
            deposit_d_sat,
            board_value_sat,
            vtxo_amount_sat,
            onchain_deposit_fee_bps,
        ).deposit_fee,
{
    let server_fee_sat: u64 = board_value_sat.saturating_sub(vtxo_amount_sat);
    let rated: u64 = match deposit_d_sat.checked_mul(onchain_deposit_fee_bps) {
        Some(product) => product,
        None => u64::MAX,
    };
    let deposit_fee_sat: u64 = rated / 10_000;
    let net: u64 = deposit_d_sat.saturating_sub(server_fee_sat).saturating_sub(deposit_fee_sat);
    (deposit_d_sat, net, server_fee_sat, deposit_fee_sat)
}

/// What the mint adds to a board is never credited: with the server's fee the same, the credit is
/// the same whatever the board is worth, and its gross is the deposit.
pub proof fn law_contribution_is_not_credited(
    d: u64,
    board_value: u64,
    vtxo_amount: u64,
    other_value: u64,
    other_vtxo_amount: u64,
    fee_bps: u64,
)
    requires
        board_value - vtxo_amount == other_value - other_vtxo_amount,
    ensures
        credit(d, board_value, vtxo_amount, fee_bps) == credit(
            d,
            other_value,
            other_vtxo_amount,
            fee_bps,
        ),
        credit(d, board_value, vtxo_amount, fee_bps).gross == d,
{
}

/// The user is credited the deposit less the two fees, where the deposit covers them.
pub proof fn law_credit_is_deposit_less_fees(
    d: u64,
    board_value: u64,
    vtxo_amount: u64,
    fee_bps: u64,
)
    ensures
        ({
            let c = credit(d, board_value, vtxo_amount, fee_bps);
            &&& c.net <= d
            &&& c.server_fee + c.deposit_fee <= d ==> c.net == d - c.server_fee - c.deposit_fee
        }),
{
    assert(credit(d, board_value, vtxo_amount, fee_bps).deposit_fee >= 0) by {
        assert(d * fee_bps >= 0) by (nonlinear_arith);
    }
}

/// The mint stays solvent: as long as the board output holds the deposit, no more is credited than
/// the board's VTXOs are worth.
pub proof fn law_credit_is_backed(d: u64, board_value: u64, vtxo_amount: u64, fee_bps: u64)
    requires
        d <= board_value,
    ensures
        credit(d, board_value, vtxo_amount, fee_bps).net <= vtxo_amount,
{
    assert(d * fee_bps >= 0) by (nonlinear_arith);
}

// ---- the receiver ---------------------------------------------------------------------------

/// The payjoin receiver: its configuration, the on-ramp state and the coins in use.
pub struct PayjoinReceiver {
    pub config: PayjoinConfig,
    pub state: OnRampStateStore,
    pub telemetry: TelemetryClient,
    /// Whether the mint adds coins of its own to a board.
    pub receiver_inputs_enabled: bool,
    /// How many coins the mint adds at most.
    pub receiver_input_count: u32,
    /// The coins that boards of this process use.
    pub locked_utxos: Table<()>,
    /// The least that the server boards.
    pub min_board_amount_sat: u64,
    /// The mint's fee on a deposit, in basis points.
    pub onchain_deposit_fee_bps: u64,
}

/// What a [`PayjoinReceiver`] holds.
pub struct ReceiverView {
    pub config: PayjoinSettings,
    pub onramp: OnRampView,
    pub control_url: Seq<char>,
    pub inputs_enabled: bool,
    pub input_count: u32,
    pub locked: Set<Seq<char>>,
    pub min_board_amount_sat: u64,
    pub fee_bps: u64,
}

impl View for PayjoinReceiver {
    type V = ReceiverView;

    open spec fn view(&self) -> ReceiverView {
        ReceiverView {
            config: self.config@,
            onramp: self.state@,
            control_url: self.telemetry@,
            inputs_enabled: self.receiver_inputs_enabled,
            input_count: self.receiver_input_count,
            locked: self.locked_utxos@.dom(),
            min_board_amount_sat: self.min_board_amount_sat,
            fee_bps: self.onchain_deposit_fee_bps,
        }
    }
}

/// Where a replayed session stands at protocol level.
#[derive(Clone, Copy, Debug, PartialEq, Eq, Structural)]
pub enum SessionStatus {
    Expired,
    Failed,
    Completed,
    FallbackBroadcasted,
    Active,
}

/// The state that a replayed session is in.
#[derive(Clone, Copy, Debug, PartialEq, Eq, Structural)]
pub enum SessionState {
    Initialized,
    UncheckedOriginalPayload,
    MaybeInputsOwned,
    MaybeInputsSeen,
    OutputsUnknown,
    WantsOutputs,
    WantsInputs,
    WantsFeeRange,
    ProvisionalProposal,
    PayjoinProposal,
    Monitor,
    HasReplyableError,
    Closed,
}

/// What to do with a session next.
#[derive(Clone, Copy, Debug, PartialEq, Eq, Structural)]
pub enum SessionStep {
    /// Nothing.
    Idle,
    /// Ask the directory for the sender's original transaction.
    PollForOriginal,
    /// Walk the original transaction through the checks to a proposal.
    Drive,
    /// Post the finished proposal.
    PostProposal,
    /// Look for the payment on chain.
    CheckConfirmation,
    /// Tell the sender that the original transaction was refused.
    PostErrorReply,
}

/// What to do with a session in a state.
pub open spec fn step_for(state: SessionState) -> SessionStep {
    match state {
        SessionState::Initialized => SessionStep::PollForOriginal,
        SessionState::PayjoinProposal => SessionStep::PostProposal,
        SessionState::Monitor => SessionStep::CheckConfirmation,
        SessionState::HasReplyableError => SessionStep::PostErrorReply,
        SessionState::Closed => SessionStep::Idle,
        _ => SessionStep::Drive,
    }
}

/// What to do with the session of a quote, given what its log replays to: nothing if the quote is
/// gone, the log does not replay or the session is over.
pub open spec fn session_step(
    quotes: Map<Seq<char>, QuoteRecord>,
    quote_id: Seq<char>,
    replayed: Option<(SessionStatus, SessionState)>,
) -> SessionStep {
    match replayed {
        Some((status, state)) if quotes.dom().contains(quote_id) && status
            == SessionStatus::Active => step_for(state),
        _ => SessionStep::Idle,
    }
}

/// What to do with a session that was interrupted in the middle of its walk.
#[derive(Clone, Copy, Debug, PartialEq, Eq, Structural)]
pub enum ResumeStep {
    /// Report progress and try again later.
    InProgress,
    PostProposal,
    CheckConfirmation,
}

/// What to do with an interrupted session in a state.
pub open spec fn resume_step(state: SessionState) -> ResumeStep {
    match state {
        SessionState::PayjoinProposal => ResumeStep::PostProposal,
        SessionState::Monitor => ResumeStep::CheckConfirmation,
        _ => ResumeStep::InProgress,
    }
}

/// The ids of quotes, in order.
pub open spec fn quote_ids(quotes: Seq<QuoteRecord>) -> Seq<Seq<char>> {
    quotes.map_values(|r: QuoteRecord| r.quote_id)
}

/// Why a session could not be made.
#[derive(Debug)]
pub enum SessionFailure {
    /// The payjoin receiver could not be built.
    Build(String),
    /// Its first event could not be kept.
    Persist(String),
}

/// What a [`SessionFailure`] says.
pub enum NoSession {
    Build(Seq<char>),
    Persist(Seq<char>),
}

/// The URI that a new session writes, or why there is none.
pub open spec fn session_result(r: Result<String, SessionFailure>) -> Result<Seq<char>, NoSession> {
    match r {
        Ok(uri) => Ok(uri@),
        Err(SessionFailure::Build(e)) => Err(NoSession::Build(e@)),
        Err(SessionFailure::Persist(e)) => Err(NoSession::Persist(e@)),
    }
}

/// The URI to hand out for a new session, or what is said where there is none.
pub open spec fn session_created(
    ohttp_keys: Option<Seq<u8>>,
    session: Result<Seq<char>, NoSession>,
) -> Result<Seq<char>, Seq<char>> {
    match (ohttp_keys, session) {
        (None, _) => Err("payjoin ohttp_keys not configured"@),
        (Some(_), Ok(uri)) => Ok(pjos_stripped(uri)),
        (Some(_), Err(NoSession::Build(e))) => Err("failed to build payjoin receiver: "@ + e),
        (Some(_), Err(NoSession::Persist(e))) => Err("failed to persist payjoin session: "@ + e),
    }
}

impl PayjoinReceiver {
    /// A receiver with no coin in use.
    pub fn new(
        config: PayjoinConfig,
        state: OnRampStateStore,
        telemetry: TelemetryClient,
        receiver_inputs_enabled: bool,
        receiver_input_count: u32,
        min_board_amount_sat: u64,
        onchain_deposit_fee_bps: u64,
    ) -> (receiver: Self)
        ensures
            receiver@ == (ReceiverView {
                config: config@,
                onramp: state@,
                control_url: telemetry@,
                inputs_enabled: receiver_inputs_enabled,
                input_count: receiver_input_count,
                locked: Set::empty(),
                min_board_amount_sat,
                fee_bps: onchain_deposit_fee_bps,
            }),
    {
        let receiver = PayjoinReceiver {
            config,
            state,
            telemetry,
            receiver_inputs_enabled,
            receiver_input_count,
            locked_utxos: Table::new(),
            min_board_amount_sat,
            onchain_deposit_fee_bps,
        };
        proof {
            assert(receiver@.locked =~= Set::empty());
        }
        receiver
    }

    /// The OHTTP keys that a new session needs.
    pub fn session_keys(&self) -> (keys: Result<&Vec<u8>, String>)
        ensures
            match keys {
                Ok(k) => self@.config.ohttp_keys == Some(k@),
                Err(e) => self@.config.ohttp_keys is None && e@
                    == "payjoin ohttp_keys not configured"@,
            },
    {
        match &self.config.ohttp_keys {
            Some(k) => Ok(k),
            None => Err("payjoin ohttp_keys not configured".to_owned()),
        }
    }

    /// The URI to hand out for a new session: the one that the session writes, with output
    /// substitution left on. There is none without OHTTP keys, or where the session failed.
    pub fn create_session(&self, session_uri: &Result<String, SessionFailure>) -> (uri: Result<
        String,
        String,
    >)
        ensures
            (match uri {
                Ok(u) => Ok(u@),
                Err(e) => Err(e@),
            }) == session_created(self@.config.ohttp_keys, session_result(*session_uri)),
    {
        if let Err(e) = self.session_keys() {
            return Err(e);
        }
        match session_uri {
            Ok(uri) => Ok(onramp_pj_uri(uri.as_str())),
            Err(SessionFailure::Build(e)) => Err(
                cat2("failed to build payjoin receiver: ", e.as_str()),
            ),
            Err(SessionFailure::Persist(e)) => Err(
                cat2("failed to persist payjoin session: ", e.as_str()),
            ),
        }
    }

    /// The quotes to advance, in the order of their ids.
    pub fn poll_all(&self) -> (ids: Vec<String>)
        ensures
            texts(ids@) == quote_ids(values_of(self@.onramp.state.quotes)),
    {
        let records = self.state.all_quotes();
        let ghost all = values_of(self@.onramp.state.quotes);
        let mut ids: Vec<String> = Vec::new();
        let mut i: usize = 0;
        while i < records.len()
            invariant
                crate::payjoin_state::quotes_view(records@) == all,
                i <= records@.len(),
                texts(ids@) == quote_ids(all).take(i as int),
            decreases records@.len() - i,
        {
            let ghost before = texts(ids@);
            ids.push(records[i].quote_id.clone());
            proof {
                assert(all[i as int] == records@[i as int]@);
                assert(texts(ids@) =~= before.push(all[i as int].quote_id));
                assert(quote_ids(all).take(i + 1) =~= quote_ids(all).take(i as int).push(
                    all[i as int].quote_id,
                ));
            }
            i += 1;
        }
        proof {
            assert(quote_ids(all).take(i as int) =~= quote_ids(all));
        }
        ids
    }

    /// What to do with the session of a quote, given what its log replays to.
    pub fn advance_session(
        &self,
        quote_id: &str,
        replayed: Option<(SessionStatus, SessionState)>,
    ) -> (step: SessionStep)
        ensures
            step == session_step(self@.onramp.state.quotes, quote_id@, replayed),
    {
        if self.state.get_quote(quote_id).is_none() {
            return SessionStep::Idle;
        }
        let state = match replayed {
            Some((status, state)) => match status {
                SessionStatus::Active => state,
                _ => {
                    return SessionStep::Idle;
                },
            },
            None => {
                return SessionStep::Idle;
            },
        };
        match state {
            SessionState::Initialized => SessionStep::PollForOriginal,
            SessionState::PayjoinProposal => SessionStep::PostProposal,
            SessionState::Monitor => SessionStep::CheckConfirmation,
            SessionState::HasReplyableError => SessionStep::PostErrorReply,
            SessionState::Closed => SessionStep::Idle,
            _ => SessionStep::Drive,
        }
    }

    /// What to do with a session that was interrupted in the middle of its walk.
    pub fn resume_partial(&self, state: SessionState) -> (step: ResumeStep)
        ensures
            step == resume_step(state),
    {
        match state {
            SessionState::PayjoinProposal => ResumeStep::PostProposal,
            SessionState::Monitor => ResumeStep::CheckConfirmation,
            _ => ResumeStep::InProgress,
        }
    }

    /// What comes of asking the directory for the original transaction: nothing if there was
    /// none; else an event, and progress if the quote is still there and its log, which now holds
    /// the transaction, replays.
    pub fn poll_for_original(
        &self,
        quote_id: &str,
        received: bool,
        replay_error: Option<String>,
    ) -> (r: (Option<OnRampEvent>, Result<BoardResult, String>))
        ensures
            (match r.0 {
                Some(e) => Some(e@),
                None => None,
            }) == (if received {
                Some(event_of(quote_id@, OnRampStage::PayjoinReceived, EventData::empty()))
            } else {
                None::<TelemetryEvent>
            }),
            match r.1 {
                Ok(result) => if received {
                    self@.onramp.state.quotes.dom().contains(quote_id@) && replay_error is None
                        && result is InProgress
                } else {
                    result is Idle
                },
                Err(e) => received && if !self@.onramp.state.quotes.dom().contains(quote_id@) {
                    e@ == "quote "@ + quote_id@ + " vanished"@
                } else {
                    replay_error is Some && e@ == "replay: "@ + replay_error->0@
                },
            },
    {
        if !received {
            return (None, Ok(BoardResult::Idle));
        }
        let event = OnRampEvent::new(quote_id, OnRampStage::PayjoinReceived);
        if self.state.get_quote(quote_id).is_none() {
            return (Some(event), Err(cat3("quote ", quote_id, " vanished")));
        }
        match replay_error {
            Some(e) => (Some(event), Err(cat2("replay: ", e.as_str()))),
            None => (Some(event), Ok(BoardResult::InProgress)),
        }
    }

    /// What comes of posting a proposal to the directory.
    pub fn post_proposal(&self, quote_id: &str) -> (r: (OnRampEvent, BoardResult))
        ensures
            r.0@ == event_of(quote_id@, OnRampStage::ProposalSent, EventData::empty()),
            r.1 is InProgress,
    {
        (OnRampEvent::new(quote_id, OnRampStage::ProposalSent), BoardResult::InProgress)
    }

    /// Notes an input that the sender shows, and says whether it was shown before.
    pub fn check_input_seen(&mut self, outpoint: &str) -> (seen: bool)
        ensures
            seen == old(self)@.onramp.state.seen_inputs.contains(outpoint@),
            final(self)@ == (ReceiverView {
                onramp: if seen {
                    old(self)@.onramp
                } else {
                    old(self)@.onramp.put(
                        crate::payjoin_state::OnRampRow::InputSeen { outpoint: outpoint@ },
                    )
                },
                ..old(self)@
            }),
            final(self)@.onramp.state.seen_inputs.contains(outpoint@),
    {
        let seen = self.state.is_input_seen(outpoint);
        if !seen {
            self.state.mark_input_seen(outpoint);
        }
        seen
    }
}

/// The server's fee is what the board's coins are worth less than its output, and the mint's own fee
/// is the deposit's share in basis points, rounded down, as far as the product can be said. What is
/// credited is zero only where the fees take the whole deposit, and credit and fees together are the
/// deposit where they do not exceed it.
pub proof fn law_fees_of_a_deposit(d: u64, board_value: u64, vtxo_amount: u64, fee_bps: u64)
    ensures
        ({
            let c = credit(d, board_value, vtxo_amount, fee_bps);
            &&& c.gross == d
            &&& vtxo_amount <= board_value ==> vtxo_amount + c.server_fee == board_value
            &&& vtxo_amount >= board_value ==> c.server_fee == 0
            &&& d * fee_bps <= u64::MAX ==> 10_000 * c.deposit_fee <= d * fee_bps && d * fee_bps
                < 10_000 * c.deposit_fee + 10_000
            &&& d * fee_bps > u64::MAX ==> 10_000 * c.deposit_fee <= u64::MAX && u64::MAX < 10_000
                * c.deposit_fee + 10_000
            &&& 0 <= c.net && 0 <= c.server_fee && 0 <= c.deposit_fee
            &&& c.server_fee + c.deposit_fee <= d ==> c.net + c.server_fee + c.deposit_fee == d
            &&& c.server_fee + c.deposit_fee >= d ==> c.net == 0
        }),
{
    assert(d * fee_bps >= 0) by (nonlinear_arith);
    assert(fee_bps == 0 ==> d * fee_bps == 0) by (nonlinear_arith);
}

/// A greater fee never credits more.
pub proof fn law_credit_falls_with_the_fee(
    d: u64,
    board_value: u64,
    vtxo_amount: u64,
    fee_bps: u64,
    more_bps: u64,
)
    requires
        fee_bps <= more_bps,
    ensures
        credit(d, board_value, vtxo_amount, more_bps).net <= credit(
            d,
            board_value,
            vtxo_amount,
            fee_bps,
        ).net,
{
    assert(d * fee_bps <= d * more_bps) by (nonlinear_arith)
        requires
            fee_bps <= more_bps,
    ;
    assert(d * fee_bps >= 0) by (nonlinear_arith);
}

/// What to do with a session depends on where it stands: the directory is asked for the original
/// exactly while there is none, the proposal is posted exactly when there is one, the chain is asked
/// exactly while the payment is awaited, and the sender is told exactly when there is an error to
/// tell. A closed session is left alone, and every other is walked on.
pub proof fn law_sessions_go_on(state: SessionState)
    ensures
        step_for(state) == SessionStep::PollForOriginal <==> state == SessionState::Initialized,
        step_for(state) == SessionStep::PostProposal <==> state == SessionState::PayjoinProposal,
        step_for(state) == SessionStep::CheckConfirmation <==> state == SessionState::Monitor,
        step_for(state) == SessionStep::PostErrorReply <==> state
            == SessionState::HasReplyableError,
        step_for(state) == SessionStep::Idle <==> state == SessionState::Closed,
        resume_step(state) == ResumeStep::PostProposal <==> step_for(state)
            == SessionStep::PostProposal,
        resume_step(state) == ResumeStep::CheckConfirmation <==> step_for(state)
            == SessionStep::CheckConfirmation,
{
}

/// A session whose quote is gone, whose log does not replay or that is over is left alone. One that
/// is active goes on from the state that it is in.
pub proof fn law_only_active_sessions_go_on(
    quotes: Map<Seq<char>, QuoteRecord>,
    record: QuoteRecord,
    quote_id: Seq<char>,
    status: SessionStatus,
    state: SessionState,
)
    ensures
        session_step(quotes, quote_id, None) == SessionStep::Idle,
        session_step(quotes.remove(quote_id), quote_id, Some((status, state)))
            == SessionStep::Idle,
        status != SessionStatus::Active ==> session_step(quotes, quote_id, Some((status, state)))
            == SessionStep::Idle,
        session_step(
            quotes.insert(quote_id, record),
            quote_id,
            Some((SessionStatus::Active, state)),
        ) == step_for(state),
{
}

/// The ids of quotes are those of the quotes, each in its place.
pub proof fn law_quote_ids_are_of_the_quotes(quotes: Seq<QuoteRecord>, i: int)
    requires
        0 <= i < quotes.len(),
    ensures
        quote_ids(quotes).len() == quotes.len(),
        quote_ids(quotes)[i] == quotes[i].quote_id,
{
}

/// A URI is handed out exactly when there are keys and a session was made, and it is then the one
/// that the session wrote, without the switch for output substitution.
pub proof fn law_uri_is_of_the_session(
    ohttp_keys: Option<Seq<u8>>,
    session: Result<Seq<char>, NoSession>,
)
    ensures
        session_created(ohttp_keys, session) is Ok <==> ohttp_keys is Some && session is Ok,
        session_created(ohttp_keys, session) is Ok ==> session_created(ohttp_keys, session)->Ok_0
            == pjos_stripped(session->Ok_0),
{
}

/// What a [`PayjoinConfig`] says is what its fields hold, each under its own name.
pub proof fn law_payjoin_config_says_what_it_holds(x: PayjoinConfig)
    ensures
        x@.directory_url == x.directory_url@,
        x@.ohttp_relay == x.ohttp_relay@,
        x@.ohttp_keys is Some <==> x.ohttp_keys is Some,
        x.ohttp_keys matches Some(keys) ==> x@.ohttp_keys == Some(keys@),
        x@.control_url == x.control_url@,
{
}

/// What a [`BoardResult`] says is of its own kind, with what its fields hold.
pub proof fn law_board_result_says_what_it_holds(x: BoardResult)
    ensures
        x is Boarded <==> x@ is Boarded,
        x matches BoardResult::Boarded {
            board_txid,
            board_vout,
            net_sat,
            deposit_outpoint,
            gross_sat,
            board_vtxo_ids,
        } ==> {
            &&& x@ matches BoardOutcome::Boarded {
                board_txid: said_board_txid,
                board_vout: said_board_vout,
                net_sat: said_net_sat,
                deposit_outpoint: said_deposit_outpoint,
                gross_sat: said_gross_sat,
                board_vtxo_ids: said_board_vtxo_ids,
            }
            &&& said_board_txid == board_txid@
            &&& said_board_vout == board_vout
            &&& said_net_sat == net_sat
            &&& said_deposit_outpoint == deposit_outpoint@
            &&& said_gross_sat == gross_sat
            &&& said_board_vtxo_ids == texts(board_vtxo_ids@)
        },
        x is Confirmed <==> x@ is Confirmed,
        x matches BoardResult::Confirmed { board_txid, net_sat } ==> {
            &&& x@ matches BoardOutcome::Confirmed {
                board_txid: said_board_txid,
                net_sat: said_net_sat,
            }
            &&& said_board_txid == board_txid@
            &&& said_net_sat == net_sat
        },
        x is InProgress <==> x@ is InProgress,
        x is Idle <==> x@ is Idle,
{
}

/// What a [`PendingBoard`] says is what its fields hold, each under its own name.
pub proof fn law_pending_board_says_what_it_holds(x: PendingBoard)
    ensures
        x@.funding_txid == x.funding_txid@,
        x@.board_vout == x.board_vout,
        x@.funding_inputs == texts(x.funding_inputs@),
        x@.amount_sat == x.amount_sat,
        x@.vtxo_ids == texts(x.vtxo_ids@),
{
}

/// What a [`PayjoinReceiver`] says is what its fields hold, each under its own name.
pub proof fn law_payjoin_receiver_says_what_it_holds(x: PayjoinReceiver)
    ensures
        x@.config == x.config@,
        x@.onramp == x.state@,
        x@.control_url == x.telemetry@,
        x@.inputs_enabled == x.receiver_inputs_enabled,
        x@.input_count == x.receiver_input_count,
        x@.locked == x.locked_utxos@.dom(),
        x@.min_board_amount_sat == x.min_board_amount_sat,
        x@.fee_bps == x.onchain_deposit_fee_bps,
{
}

} // verus!
