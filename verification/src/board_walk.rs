//! The walk from a sender's original transaction to a cosigned board. Each stage is a type of its
//! own, made by the stage before it, so that a board is credited only with the deposit that was
//! captured before the mint added anything.

use crate::adapters::{
    hex_decode, hex_error, parse_session_event, session_event_parsed, unhex,
};
use crate::outputs::{bytes_eq, outpoint_text, outputs_view, write_outpoint, Output, TxOutput};
use crate::payjoin_receiver::{
    credit, credit_from_deposit, law_credit_is_backed, law_credit_is_deposit_less_fees,
    law_fees_of_a_deposit, resume_step, BoardOutcome, BoardResult, PayjoinReceiver, PendingBoard,
    ResumeStep, SessionState,
};
use crate::payjoin_state::OnRampQuoteRecord;
use crate::telemetry::{event_of, EventData, OnRampEvent, OnRampStage};
use crate::text::{cat2, cat5, copy_texts, decimal, texts, u64_text};
use vstd::prelude::*;

verus! {

// ---- outputs that pay the board -------------------------------------------------------------

/// What a list of outputs pays to a script.
pub open spec fn paid_to(outputs: Seq<Output>, script: Seq<u8>) -> nat
    decreases outputs.len(),
{
    if outputs.len() == 0 {
        0
    } else {
        paid_to(outputs.drop_last(), script) + if outputs.last().script == script {
            outputs.last().value_sat as nat
        } else {
            0
        }
    }
}

proof fn lemma_paid_grows(outputs: Seq<Output>, script: Seq<u8>, n: int)
    requires
        0 <= n <= outputs.len(),
    ensures
        paid_to(outputs.take(n), script) <= paid_to(outputs, script),
    decreases outputs.len(),
{
    if n < outputs.len() {
        lemma_paid_grows(outputs.drop_last(), script, n);
        assert(outputs.drop_last().take(n) =~= outputs.take(n));
    } else {
        assert(outputs.take(n) =~= outputs);
    }
}

/// What a list of outputs pays to a script, if that is an amount at all.
pub fn deposit_total(outputs: &Vec<TxOutput>, script: &Vec<u8>) -> (total: Option<u64>)
    ensures
        match total {
            Some(t) => t == paid_to(outputs_view(outputs@), script@),
            None => paid_to(outputs_view(outputs@), script@) > u64::MAX,
        },
{
    let ghost all = outputs_view(outputs@);
    let mut total: u64 = 0;
    let mut i: usize = 0;
    while i < outputs.len()
        invariant
            all == outputs_view(outputs@),
            i <= outputs@.len(),
            total == paid_to(all.take(i as int), script@),
        decreases outputs@.len() - i,
    {
        proof {
            assert(all.take(i + 1).drop_last() =~= all.take(i as int));
            assert(all.take(i + 1).last() == outputs@[i as int]@);
            lemma_paid_grows(all, script@, i + 1);
        }
        if bytes_eq(&outputs[i].script, script) {
            match total.checked_add(outputs[i].value_sat) {
                Some(t) => {
                    total = t;
                },
                None => {
                    return None;
                },
            }
        }
        i += 1;
    }
    proof {
        assert(all.take(i as int) =~= all);
    }
    Some(total)
}

/// The first output that pays to a script, and its index.
pub open spec fn board_output(outputs: Seq<Output>, script: Seq<u8>) -> Option<(u64, int)>
    decreases outputs.len(),
{
    if outputs.len() == 0 {
        None
    } else {
        match board_output(outputs.drop_last(), script) {
            Some(found) => Some(found),
            None => if outputs.last().script == script {
                Some((outputs.last().value_sat, outputs.len() - 1))
            } else {
                None
            },
        }
    }
}

fn find_board_output(outputs: &Vec<TxOutput>, script: &Vec<u8>) -> (found: Option<(u64, usize)>)
    ensures
        match found {
            Some((value, at)) => board_output(outputs_view(outputs@), script@) == Some(
                (value, at as int),
            ),
            None => board_output(outputs_view(outputs@), script@) is None,
        },
{
    let ghost all = outputs_view(outputs@);
    let mut found: Option<(u64, usize)> = None;
    let mut i: usize = 0;
    while i < outputs.len()
        invariant
            all == outputs_view(outputs@),
            i <= outputs@.len(),
            match found {
                Some((value, at)) => board_output(all.take(i as int), script@) == Some(
                    (value, at as int),
                ),
                None => board_output(all.take(i as int), script@) is None,
            },
        decreases outputs@.len() - i,
    {
        proof {
            assert(all.take(i + 1).drop_last() =~= all.take(i as int));
            assert(all.take(i + 1).last() == outputs@[i as int]@);
        }
        if found.is_none() && bytes_eq(&outputs[i].script, script) {
            found = Some((outputs[i].value_sat, i));
        }
        i += 1;
    }
    proof {
        assert(all.take(i as int) =~= all);
    }
    found
}

// ---- the deposit, from the session log ------------------------------------------------------

/// What the events of a session log commit to, or what is wrong with the first that is broken.
pub open spec fn events_parsed(events: Seq<Seq<char>>) -> Result<
    Seq<Option<Seq<Output>>>,
    Seq<char>,
>
    decreases events.len(),
{
    if events.len() == 0 {
        Ok(Seq::empty())
    } else {
        match events_parsed(events.drop_last()) {
            Err(e) => Err(e),
            Ok(front) => match session_event_parsed(events.last()) {
                Ok(outputs) => Ok(front.push(outputs)),
                Err(e) => Err(e),
            },
        }
    }
}

/// The value of the output that pays to a script in the last commitment that has one.
pub open spec fn last_committed(events: Seq<Option<Seq<Output>>>, script: Seq<u8>) -> Option<u64>
    decreases events.len(),
{
    if events.len() == 0 {
        None
    } else {
        match events.last() {
            Some(outputs) => match board_output(outputs, script) {
                Some((value, _)) => Some(value),
                None => last_committed(events.drop_last(), script),
            },
            None => last_committed(events.drop_last(), script),
        }
    }
}

/// What an event commits to, if anything.
pub open spec fn commitment_view(o: Option<Vec<TxOutput>>) -> Option<Seq<Output>> {
    match o {
        Some(outputs) => Some(outputs_view(outputs@)),
        None => None,
    }
}

/// What each of several events commits to.
pub open spec fn commitments_view(v: Seq<Option<Vec<TxOutput>>>) -> Seq<Option<Seq<Output>>> {
    v.map_values(|o: Option<Vec<TxOutput>>| commitment_view(o))
}

fn parse_session_events(events: &Vec<String>) -> (r: Result<Vec<Option<Vec<TxOutput>>>, String>)
    ensures
        (match r {
            Ok(v) => Ok(commitments_view(v@)),
            Err(e) => Err(e@),
        }) == events_parsed(texts(events@)),
{
    let ghost all = texts(events@);
    let mut out: Vec<Option<Vec<TxOutput>>> = Vec::new();
    proof {
        assert(commitments_view(out@) =~= Seq::empty());
    }
    let mut i: usize = 0;
    while i < events.len()
        invariant
            all == texts(events@),
            i <= events@.len(),
            events_parsed(all.take(i as int)) == Ok::<_, Seq<char>>(commitments_view(out@)),
        decreases events@.len() - i,
    {
        let ghost before = commitments_view(out@);
        proof {
            assert(all.take(i + 1).drop_last() =~= all.take(i as int));
            assert(all.take(i + 1).last() == events@[i as int]@);
        }
        match parse_session_event(events[i].as_str()) {
            Ok(outputs) => {
                let ghost parsed = commitment_view(outputs);
                out.push(outputs);
                proof {
                    assert(commitments_view(out@) =~= before.push(parsed));
                }
            },
            Err(e) => {
                proof {
                    lemma_error_stays(all, i + 1);
                }
                return Err(e);
            },
        }
        i += 1;
    }
    proof {
        assert(all.take(i as int) =~= all);
    }
    Ok(out)
}

proof fn lemma_error_stays(events: Seq<Seq<char>>, n: int)
    requires
        0 <= n <= events.len(),
        events_parsed(events.take(n)) is Err,
    ensures
        events_parsed(events) == events_parsed(events.take(n)),
    decreases events.len(),
{
    if n < events.len() {
        assert(events.drop_last().take(n) =~= events.take(n));
        lemma_error_stays(events.drop_last(), n);
    } else {
        assert(events.take(n) =~= events);
    }
}

/// The value of the output that pays to a script in the last commitment that has one.
pub fn committed_board_output_value(
    events: &Vec<Option<Vec<TxOutput>>>,
    script: &Vec<u8>,
) -> (value: Option<u64>)
    ensures
        value == last_committed(commitments_view(events@), script@),
{
    let ghost all = commitments_view(events@);
    let mut value: Option<u64> = None;
    let mut i: usize = 0;
    while i < events.len()
        invariant
            all == commitments_view(events@),
            i <= events@.len(),
            value == last_committed(all.take(i as int), script@),
        decreases events@.len() - i,
    {
        proof {
            assert(all.take(i + 1).drop_last() =~= all.take(i as int));
            assert(all.take(i + 1).last() == all[i as int]);
        }
        if let Some(outputs) = &events[i] {
            if let Some((found, _)) = find_board_output(outputs, script) {
                value = Some(found);
            }
        }
        i += 1;
    }
    proof {
        assert(all.take(i as int) =~= all);
    }
    value
}

/// What a session log says the user paid in: the board output of the last commitment that has one,
/// made before the mint adds anything.
pub open spec fn captured_deposit(events: Seq<Seq<char>>, script: Seq<u8>) -> Result<
    u64,
    Seq<char>,
> {
    match events_parsed(events) {
        Err(e) => Err(
            "load session events for D capture: onramp session persister error: "@ + e,
        ),
        Ok(commitments) => match last_committed(commitments, script) {
            Some(value) => Ok(value),
            None => Err(
                "could not capture user deposit D: no committed board output found in session log"@,
            ),
        },
    }
}

/// Reads from a session log what the user paid in.
pub fn read_committed_board_output_value(events: &Vec<String>, board_script: &Vec<u8>) -> (r:
    Result<u64, String>)
    ensures
        (match r {
            Ok(v) => Ok(v),
            Err(e) => Err(e@),
        }) == captured_deposit(texts(events@), board_script@),
{
    match parse_session_events(events) {
        Err(e) => Err(
            cat2(
                "load session events for D capture: onramp session persister error: ",
                e.as_str(),
            ),
        ),
        Ok(commitments) => match committed_board_output_value(&commitments, board_script) {
            Some(value) => Ok(value),
            None => Err(
                "could not capture user deposit D: no committed board output found in session log".to_owned(),
            ),
        },
    }
}

// ---- the stages -----------------------------------------------------------------------------

/// A walk that has just begun, at the sender's original transaction.
pub struct BoardWalk {
    quote_id: String,
    board_script: Vec<u8>,
    keypair_index: u32,
    expiry_height: u32,
}

/// What a [`BoardWalk`] holds.
pub struct Walk {
    pub quote_id: Seq<char>,
    pub board_script: Seq<u8>,
    pub keypair_index: u32,
    pub expiry_height: u32,
}

impl View for BoardWalk {
    type V = Walk;

    closed spec fn view(&self) -> Walk {
        Walk {
            quote_id: self.quote_id@,
            board_script: self.board_script@,
            keypair_index: self.keypair_index,
            expiry_height: self.expiry_height,
        }
    }
}

/// How a walk starts.
pub enum WalkStart {
    /// From the original transaction.
    Fresh(BoardWalk),
    /// Not at all: the session is past that, and goes on from where it is.
    Resume(ResumeStep),
}

impl PayjoinReceiver {
    /// Starts the walk of a session for the quote of `record`.
    pub fn drive_from_state(&self, record: &OnRampQuoteRecord, session: SessionState) -> (r: Result<
        WalkStart,
        String,
    >)
        ensures
            match r {
                Ok(WalkStart::Fresh(walk)) => session == SessionState::UncheckedOriginalPayload
                    && unhex(record@.board_script_hex) == Some(walk@.board_script)
                    && walk@.quote_id == record@.quote_id
                    && walk@.keypair_index == record@.keypair_index
                    && walk@.expiry_height == record@.expiry_height,
                Ok(WalkStart::Resume(step)) => session != SessionState::UncheckedOriginalPayload
                    && unhex(record@.board_script_hex) is Some && step == resume_step(session),
                Err(e) => unhex(record@.board_script_hex) is None && e@
                    == "bad board script hex: "@ + hex_error(record@.board_script_hex),
            },
    {
        let board_script = match hex_decode(record.board_script_hex.as_str()) {
            Ok(bytes) => bytes,
            Err(e) => {
                return Err(cat2("bad board script hex: ", e.as_str()));
            },
        };
        match session {
            SessionState::UncheckedOriginalPayload => Ok(
                WalkStart::Fresh(
                    BoardWalk {
                        quote_id: record.quote_id.clone(),
                        board_script,
                        keypair_index: record.keypair_index,
                        expiry_height: record.expiry_height,
                    },
                ),
            ),
            other => Ok(WalkStart::Resume(self.resume_partial(other))),
        }
    }

}

/// What is said of an original transaction that pays the board less than the server accepts.
pub open spec fn below_minimum(paid_sat: nat, min_sat: u64) -> Seq<char> {
    "sub-minimum deposit "@ + decimal(paid_sat) + " sat (minimum "@ + decimal(min_sat as nat)
        + " sat)"@
}

impl BoardWalk {
    /// The board funding script.
    pub fn board_script(&self) -> (script: &Vec<u8>)
        ensures
            script@ == self@.board_script,
    {
        &self.board_script
    }

    /// Goes on with an original transaction that pays the board enough for the server to accept it,
    /// and with no other. No coin of the mint is touched before.
    pub fn accept(self, receiver: &PayjoinReceiver, outputs: &Vec<TxOutput>) -> (r: Result<
        AcceptedWalk,
        String,
    >)
        requires
            paid_to(outputs_view(outputs@), self@.board_script) <= u64::MAX,
        ensures
            ({
                let paid = paid_to(outputs_view(outputs@), self@.board_script);
                if paid >= receiver@.min_board_amount_sat {
                    r matches Ok(accepted) && accepted@ == self@
                } else {
                    r matches Err(e) && e@ == below_minimum(paid, receiver@.min_board_amount_sat)
                }
            }),
    {
        let paid: u64 = match deposit_total(outputs, &self.board_script) {
            Some(total) => total,
            None => 0,
        };
        if paid >= receiver.min_board_amount_sat {
            return Ok(AcceptedWalk { walk: self });
        }
        Err(
            cat5(
                "sub-minimum deposit ",
                u64_text(paid).as_str(),
                " sat (minimum ",
                u64_text(receiver.min_board_amount_sat).as_str(),
                " sat)",
            ),
        )
    }
}

/// A walk whose original transaction is accepted.
pub struct AcceptedWalk {
    walk: BoardWalk,
}

impl View for AcceptedWalk {
    type V = Walk;

    closed spec fn view(&self) -> Walk {
        self.walk@
    }
}

impl AcceptedWalk {
    /// The board funding script.
    pub fn board_script(&self) -> (script: &Vec<u8>)
        ensures
            script@ == self@.board_script,
    {
        &self.walk.board_script
    }

    /// Whether the mint owns an input of the sender's transaction, given the outpoint that the
    /// input spends. The mint's wallet never pays into a board by itself, so it owns none.
    pub fn owns_input(&self, outpoint: &str) -> (r: bool)
        ensures
            r == false,
    {
        false
    }

    /// Whether an output is the receiver's: exactly those that pay the board.
    pub fn is_receiver_output(&self, script: &Vec<u8>) -> (r: bool)
        ensures
            r == (script@ == self@.board_script),
    {
        bytes_eq(script, &self.walk.board_script)
    }

    /// Captures the user's deposit, once the outputs are committed.
    pub fn capture_deposit(self, events: &Vec<String>) -> (r: Result<FundedWalk, String>)
        ensures
            match r {
                Ok(funded) => captured_deposit(texts(events@), self@.board_script) == Ok::<
                    u64,
                    Seq<char>,
                >(funded@.deposit_sat) && funded@.walk == self@,
                Err(e) => captured_deposit(texts(events@), self@.board_script) == Err::<
                    u64,
                    Seq<char>,
                >(e@),
            },
    {
        match read_committed_board_output_value(events, &self.walk.board_script) {
            Ok(deposit_sat) => Ok(FundedWalk { walk: self, deposit_sat }),
            Err(e) => Err(e),
        }
    }
}

/// A walk whose deposit is captured.
pub struct FundedWalk {
    walk: AcceptedWalk,
    deposit_sat: u64,
}

/// What a [`FundedWalk`] holds.
pub struct Funded {
    pub walk: Walk,
    pub deposit_sat: u64,
}

impl View for FundedWalk {
    type V = Funded;

    closed spec fn view(&self) -> Funded {
        Funded { walk: self.walk@, deposit_sat: self.deposit_sat }
    }
}

impl FundedWalk {
    /// Goes on with the coins that the mint added, or with none.
    pub fn with_inputs(self, contributed: Vec<String>) -> (proposal: ProposalWalk)
        ensures
            proposal@.funded == self@,
            proposal@.contributed == texts(contributed@),
    {
        ProposalWalk { funded: self, contributed }
    }
}

/// A walk whose inputs are committed.
pub struct ProposalWalk {
    funded: FundedWalk,
    contributed: Vec<String>,
}

/// What a [`ProposalWalk`] holds.
pub struct Proposal {
    pub funded: Funded,
    pub contributed: Seq<Seq<char>>,
}

impl View for ProposalWalk {
    type V = Proposal;

    closed spec fn view(&self) -> Proposal {
        Proposal { funded: self.funded@, contributed: texts(self.contributed@) }
    }
}

impl ProposalWalk {
    /// Finds the board output in the proposal that is to be cosigned.
    pub fn find_board(self, outputs: &Vec<TxOutput>) -> (r: Result<CosignWalk, String>)
        ensures
            match r {
                Ok(cosign) => board_output(
                    outputs_view(outputs@),
                    self@.funded.walk.board_script,
                ) matches Some((value, at)) && cosign@.board_value_sat == value
                    && cosign@.board_vout == at as u32 && cosign@.proposal == self@,
                Err(e) => board_output(
                    outputs_view(outputs@),
                    self@.funded.walk.board_script,
                ) is None && e@ == "board output missing from proposal psbt"@,
            },
    {
        match find_board_output(outputs, self.funded.walk.board_script()) {
            Some((value, at)) => Ok(
                CosignWalk {
                    proposal: self,
                    board_value_sat: value,
                    board_vout: #[verifier::truncate] (at as u32),
                },
            ),
            None => Err("board output missing from proposal psbt".to_owned()),
        }
    }
}

/// A walk whose proposal is ready to be cosigned.
pub struct CosignWalk {
    proposal: ProposalWalk,
    board_value_sat: u64,
    board_vout: u32,
}

/// What a [`CosignWalk`] holds.
pub struct Cosign {
    pub proposal: Proposal,
    pub board_value_sat: u64,
    pub board_vout: u32,
}

impl View for CosignWalk {
    type V = Cosign;

    closed spec fn view(&self) -> Cosign {
        Cosign {
            proposal: self.proposal@,
            board_value_sat: self.board_value_sat,
            board_vout: self.board_vout,
        }
    }
}

/// The result of a board that was cosigned for a walk: the user is credited with the captured
/// deposit, whatever the board output is worth.
pub open spec fn boarded(
    cosign: Cosign,
    board: crate::payjoin_receiver::Board,
    fee_bps: u64,
) -> BoardOutcome {
    let c = credit(
        cosign.proposal.funded.deposit_sat,
        cosign.board_value_sat,
        board.amount_sat,
        fee_bps,
    );
    BoardOutcome::Boarded {
        board_txid: board.funding_txid,
        board_vout: cosign.board_vout,
        net_sat: c.net as u64,
        deposit_outpoint: outpoint_text(board.funding_txid, cosign.board_vout),
        gross_sat: cosign.proposal.funded.deposit_sat,
        board_vtxo_ids: board.vtxo_ids,
    }
}

impl CosignWalk {
    /// The derivation index of the board's user key.
    pub fn keypair_index(&self) -> (index: u32)
        ensures
            index == self@.proposal.funded.walk.keypair_index,
    {
        self.proposal.funded.walk.walk.keypair_index
    }

    /// The expiry height of the board's VTXO.
    pub fn expiry_height(&self) -> (height: u32)
        ensures
            height == self@.proposal.funded.walk.expiry_height,
    {
        self.proposal.funded.walk.walk.expiry_height
    }

    /// Whether the mint has to sign: whether it added a coin.
    pub fn needs_mint_signature(&self) -> (r: bool)
        ensures
            r == (self@.proposal.contributed.len() > 0),
    {
        self.proposal.contributed.len() > 0
    }

    /// The result of the walk, once the board is cosigned and its proposal posted, and the event
    /// to emit.
    pub fn boarded(self, pending: &PendingBoard, receiver: &PayjoinReceiver) -> (r: (
        BoardResult,
        OnRampEvent,
    ))
        ensures
            r.0@ == boarded(self@, pending@, receiver@.fee_bps),
            r.1@ == event_of(
                self@.proposal.funded.walk.quote_id,
                OnRampStage::BoardBroadcast,
                (EventData { board_txid: Some(pending@.funding_txid), ..EventData::empty() }),
            ),
    {
        let (gross_sat, net_sat, _server_fee, _deposit_fee) = credit_from_deposit(
            self.proposal.funded.deposit_sat,
            self.board_value_sat,
            pending.amount_sat,
            receiver.onchain_deposit_fee_bps,
        );
        let deposit_outpoint = write_outpoint(pending.funding_txid.as_str(), self.board_vout);
        let event = OnRampEvent::new(
            self.proposal.funded.walk.walk.quote_id.as_str(),
            OnRampStage::BoardBroadcast,
        ).with_board_txid(pending.funding_txid.as_str());
        (
            BoardResult::Boarded {
                board_txid: pending.funding_txid.clone(),
                board_vout: self.board_vout,
                net_sat,
                deposit_outpoint,
                gross_sat,
                board_vtxo_ids: copy_texts(&pending.vtxo_ids),
            },
            event,
        )
    }
}

/// What is paid to a script adds up: no outputs pay nothing, one that pays the script pays its value
/// and one that pays another pays nothing, and what two lists pay is what each of them does.
pub proof fn law_payments_add_up(
    one: Seq<Output>,
    two: Seq<Output>,
    output: Output,
    script: Seq<u8>,
)
    ensures
        paid_to(Seq::empty(), script) == 0,
        output.script == script ==> paid_to(seq![output], script) == output.value_sat,
        output.script != script ==> paid_to(seq![output], script) == 0,
        paid_to(one + two, script) == paid_to(one, script) + paid_to(two, script),
    decreases two.len(),
{
    assert(seq![output].drop_last() =~= Seq::<Output>::empty());
    reveal_with_fuel(paid_to, 2);
    if two.len() == 0 {
        assert(one + two =~= one);
    } else {
        law_payments_add_up(one, two.drop_last(), output, script);
        assert((one + two).drop_last() =~= one + two.drop_last());
        assert((one + two).last() == two.last());
    }
}

/// The board output of a transaction is the first that pays the board's script, with its value and
/// its place. There is one exactly when some output pays the script.
pub proof fn law_board_output_pays_the_board(outputs: Seq<Output>, script: Seq<u8>)
    ensures
        match board_output(outputs, script) {
            Some((value, at)) => {
                &&& 0 <= at < outputs.len()
                &&& outputs[at].script == script && outputs[at].value_sat == value
                &&& forall|j: int| 0 <= j < at ==> (#[trigger] outputs[j]).script != script
            },
            None => forall|j: int| 0 <= j < outputs.len() ==> (#[trigger] outputs[j]).script != script,
        },
    decreases outputs.len(),
{
    if outputs.len() > 0 {
        let front = outputs.drop_last();
        law_board_output_pays_the_board(front, script);
        assert forall|j: int| 0 <= j < front.len() implies front[j] == #[trigger] outputs[j] by {}
        assert(outputs.last() == outputs[outputs.len() - 1]);
    }
}

/// A session log commits to the deposit that its last event with an output to the board commits to:
/// an event without one changes nothing, and one with it takes the place of those before.
pub proof fn law_last_commitment_counts(
    events: Seq<Option<Seq<Output>>>,
    outputs: Seq<Output>,
    at: int,
    script: Seq<u8>,
)
    ensures
        last_committed(Seq::empty(), script) is None,
        last_committed(events.push(None), script) == last_committed(events, script),
        (forall|j: int| 0 <= j < outputs.len() ==> (#[trigger] outputs[j]).script != script)
            ==> last_committed(events.push(Some(outputs)), script) == last_committed(
            events,
            script,
        ),
        0 <= at < outputs.len() && outputs[at].script == script && (forall|j: int|
            0 <= j < at ==> (#[trigger] outputs[j]).script != script) ==> last_committed(
            events.push(Some(outputs)),
            script,
        ) == Some(outputs[at].value_sat),
{
    assert(events.push(None).drop_last() =~= events);
    assert(events.push(Some(outputs)).drop_last() =~= events);
    law_board_output_pays_the_board(outputs, script);
}

/// The events of a session log are read one by one and in their order, and the first that cannot be
/// read is what is said of the log.
pub proof fn law_events_are_read_in_order(events: Seq<Seq<char>>, i: int)
    ensures
        match events_parsed(events) {
            Ok(read) => {
                &&& read.len() == events.len()
                &&& 0 <= i < events.len() ==> session_event_parsed(events[i]) == Ok::<
                    Option<Seq<Output>>,
                    Seq<char>,
                >(read[i])
            },
            Err(e) => exists|bad: int|
                0 <= bad < events.len() && #[trigger] session_event_parsed(events[bad]) == Err::<
                    Option<Seq<Output>>,
                    Seq<char>,
                >(e) && forall|j: int|
                    0 <= j < bad ==> #[trigger] session_event_parsed(events[j]) is Ok,
        },
    decreases events.len(),
{
    if events.len() > 0 {
        let front = events.drop_last();
        let last = events.len() - 1;
        assert(events.last() == events[last]);
        if i < last {
            law_events_are_read_in_order(front, i);
        } else {
            law_events_are_read_in_order(front, 0);
        }
        match events_parsed(front) {
            Err(e) => {
                let bad = choose|bad: int|
                    0 <= bad < front.len() && #[trigger] session_event_parsed(front[bad]) == Err::<
                        Option<Seq<Output>>,
                        Seq<char>,
                    >(e) && forall|j: int|
                        0 <= j < bad ==> #[trigger] session_event_parsed(front[j]) is Ok;
                assert(session_event_parsed(events[bad]) == Err::<
                    Option<Seq<Output>>,
                    Seq<char>,
                >(e));
                assert forall|j: int| 0 <= j < bad implies #[trigger] session_event_parsed(
                    events[j],
                ) is Ok by {
                    assert(session_event_parsed(front[j]) is Ok);
                }
            },
            Ok(read) => {
                assert forall|j: int| 0 <= j < last implies #[trigger] session_event_parsed(
                    events[j],
                ) is Ok by {
                    law_events_are_read_in_order(front, j);
                    assert(front[j] == events[j]);
                }
                assert(0 <= i < last ==> front[i] == events[i]);
            },
        }
    }
}

/// The deposit that is captured is the one that the log commits to, and there is none where an event
/// cannot be read or none commits to one.
pub proof fn law_deposit_is_the_committed_one(
    events: Seq<Seq<char>>,
    read: Seq<Option<Seq<Output>>>,
    script: Seq<u8>,
)
    ensures
        events_parsed(events) is Err ==> captured_deposit(events, script) is Err,
        events_parsed(events) == Ok::<_, Seq<char>>(read) ==> match last_committed(read, script) {
            Some(value) => captured_deposit(events, script) == Ok::<u64, Seq<char>>(value),
            None => captured_deposit(events, script) is Err,
        },
{
}

/// A cosigned board is credited to the deposit that was captured: the deposit is what was paid in,
/// the board's output is its key, and no more than the deposit is credited, nor more than what the
/// board's coins are worth where its output holds the deposit.
pub proof fn law_boarded_is_of_the_walk(
    cosign: Cosign,
    board: crate::payjoin_receiver::Board,
    fee_bps: u64,
)
    ensures
        ({
            let outcome = boarded(cosign, board, fee_bps);
            let deposit = cosign.proposal.funded.deposit_sat;
            &&& outcome is Boarded
            &&& outcome->Boarded_board_txid == board.funding_txid
            &&& outcome->board_vout == cosign.board_vout
            &&& outcome->deposit_outpoint == board.funding_txid + ":"@ + decimal(
                cosign.board_vout as nat,
            )
            &&& outcome->board_vtxo_ids == board.vtxo_ids
            &&& outcome->gross_sat == deposit
            &&& outcome->Boarded_net_sat <= deposit
            &&& deposit <= cosign.board_value_sat ==> outcome->Boarded_net_sat <= board.amount_sat
            &&& fee_bps == 0 && cosign.board_value_sat == board.amount_sat
                ==> outcome->Boarded_net_sat == deposit
        }),
{
    let deposit = cosign.proposal.funded.deposit_sat;
    law_credit_is_deposit_less_fees(deposit, cosign.board_value_sat, board.amount_sat, fee_bps);
    if deposit <= cosign.board_value_sat {
        law_credit_is_backed(deposit, cosign.board_value_sat, board.amount_sat, fee_bps);
    }
    law_fees_of_a_deposit(deposit, cosign.board_value_sat, board.amount_sat, fee_bps);
    if fee_bps == 0 {
        assert(deposit * fee_bps == 0) by (nonlinear_arith)
            requires
                fee_bps == 0,
        ;
    }
}

/// What several events commit to is said each in its place.
pub proof fn law_commitments_are_said_in_order(v: Seq<Option<Vec<TxOutput>>>, i: int)
    requires
        0 <= i < v.len(),
    ensures
        commitments_view(v).len() == v.len(),
        v[i] matches Some(outputs) ==> commitments_view(v)[i] == Some(outputs_view(outputs@)),
        v[i] is None ==> commitments_view(v)[i] is None,
{
}

/// A deposit that is too small is refused with what was paid and the least that is accepted.
pub proof fn law_small_deposit_is_named(paid_sat: nat, min_sat: u64)
    ensures
        below_minimum(paid_sat, min_sat) == "sub-minimum deposit "@ + decimal(paid_sat)
            + " sat (minimum "@ + decimal(min_sat as nat) + " sat)"@,
{
}

} // verus!
