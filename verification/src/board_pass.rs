//! One pass over the on-chain receives: recover, finalize, detect, and say what is ready to board.

use crate::adapters::{address_of_script, outpoint_parsed, vtxo_id_parsed};
use crate::ark_backend::{lemma_each_is_stepped, receives_stepped, ArkBackend, BackendView};
use crate::ark_store::{ArkState, StoreView};
use crate::boarding::{ready_boards, ready_view, ReadyBoard};
use crate::intents::ReceiveIntent;
use crate::network::Network;
use crate::order::{key_order, lemma_before_one_way, lemma_key_order, precedes};
use crate::payjoin_receiver::{Board, PendingBoard};
use crate::payment::{Failure, PaymentError};
use crate::receives::{
    boards_result, confirmed_events, deposits_view, detection, finalization, finalizes,
    law_detected_deposit_paid_its_quote, law_finalized_when_all_is_spendable,
    law_paid_address_is_detected, law_recovery_resolves_interrupted_boards, recovery, Deposit,
    WalletOutput,
};
use crate::seqs::{lemma_values_listed, values_of};
use crate::telemetry::{events_view, OnRampEvent};
use crate::text::texts;
use vstd::prelude::*;

verus! {

/// What the wallet and the chain say at the time of a pass.
pub struct WalletSnapshot {
    /// The boards that the wallet holds and that are not yet spendable, or why it cannot say.
    pub boards: Result<Vec<PendingBoard>, String>,
    /// What the on-chain wallet can spend.
    pub outputs: Vec<WalletOutput>,
    /// The ids of the VTXOs that can be spent.
    pub spendable: Vec<String>,
    /// The height of the chain.
    pub tip: u32,
}

/// What a [`WalletSnapshot`] says.
pub struct Snapshot {
    pub boards: Result<Seq<Board>, Seq<char>>,
    pub outputs: Seq<Deposit>,
    pub spendable: Seq<Seq<char>>,
    pub tip: u32,
}

impl View for WalletSnapshot {
    type V = Snapshot;

    open spec fn view(&self) -> Snapshot {
        Snapshot {
            boards: boards_result(self.boards),
            outputs: deposits_view(self.outputs@),
            spendable: texts(self.spendable@),
            tip: self.tip,
        }
    }
}

impl Snapshot {
    /// The outpoints that the on-chain wallet can spend.
    pub open spec fn unspent(self) -> Seq<Seq<char>> {
        self.outputs.map_values(|o: Deposit| o.outpoint)
    }
}

/// The store after recovery, and whether that went well.
pub open spec fn recovered(store: StoreView, snap: Snapshot, now: u64) -> (
    StoreView,
    Result<(), Failure>,
) {
    receives_stepped(
        store,
        values_of(store.state.receive_intents),
        |s: ArkState, i: ReceiveIntent| recovery(i, snap.boards, snap.unspent(), now),
    )
}

/// The store after finalizing.
pub open spec fn all_finalized(store: StoreView, snap: Snapshot, now: u64) -> StoreView {
    receives_stepped(
        store,
        values_of(store.state.receive_intents),
        |s: ArkState, i: ReceiveIntent| finalization(i, snap.spendable, now),
    ).0
}

/// The store after detection, and whether that went well.
pub open spec fn all_detected(store: StoreView, snap: Snapshot, network: Network, now: u64) -> (
    StoreView,
    Result<(), Failure>,
) {
    receives_stepped(
        store,
        snap.outputs,
        |s: ArkState, o: Deposit| detection(s, o, network, snap.tip, now),
    )
}

fn outpoints_of(outputs: &Vec<WalletOutput>) -> (out: Vec<String>)
    ensures
        texts(out@) == deposits_view(outputs@).map_values(|o: Deposit| o.outpoint),
{
    let ghost all = deposits_view(outputs@).map_values(|o: Deposit| o.outpoint);
    let mut out: Vec<String> = Vec::new();
    let mut i: usize = 0;
    while i < outputs.len()
        invariant
            all == deposits_view(outputs@).map_values(|o: Deposit| o.outpoint),
            i <= outputs@.len(),
            texts(out@) == all.take(i as int),
        decreases outputs@.len() - i,
    {
        let ghost before = texts(out@);
        out.push(outputs[i].outpoint.clone());
        proof {
            assert(texts(out@) =~= before.push(all[i as int]));
            assert(all.take(i + 1) =~= all.take(i as int).push(all[i as int]));
        }
        i += 1;
    }
    proof {
        assert(all.take(i as int) =~= all);
    }
    out
}

impl ArkBackend {
    /// Makes one pass: recovers interrupted boards, finalizes spendable ones, and detects new
    /// deposits. Returns the events to emit, and what is ready to board. A failure of recovery
    /// ends the pass at once; one of detection leaves what was finalized.
    pub fn process_onchain_receive_boards(&mut self, snapshot: &WalletSnapshot, now: u64) -> (r: (
        Vec<OnRampEvent>,
        Result<Vec<ReadyBoard>, PaymentError>,
    ))
        ensures
            ({
                let start = old(self)@;
                let snap = snapshot@;
                let (first, recovery_result) = recovered(start.store, snap, now);
                let second = all_finalized(first, snap, now);
                let (third, detection_result) = all_detected(second, snap, start.network, now);
                match recovery_result {
                    Err(f) => r.1 matches Err(e) && e@ == f && r.0@.len() == 0 && final(self)@
                        == start.with_store(first),
                    Ok(_) => final(self)@ == start.with_store(third) && events_view(r.0@)
                        == confirmed_events(
                        start,
                        values_of(first.state.receive_intents),
                        snap.spendable,
                    ) && match detection_result {
                        Err(f) => r.1 matches Err(e) && e@ == f,
                        Ok(_) => r.1 matches Ok(ready) && ready_view(ready@) == ready_boards(
                            third.state,
                            now,
                        ),
                    },
                }
            }),
    {
        let ghost start = self@;
        let ghost snap = snapshot@;
        let unspent = outpoints_of(&snapshot.outputs);
        if let Err(e) = self.recover_preparing_receive_boards(&snapshot.boards, &unspent, now) {
            return (Vec::new(), Err(e));
        }
        let ghost first = self@.store;
        let events = self.finalize_spendable_receive_boards(&snapshot.spendable, now);
        proof {
            lemma_same_events(
                start,
                start.with_store(first),
                values_of(first.state.receive_intents),
                snap.spendable,
            );
        }
        if let Err(e) = self.detect_confirmed_receive_deposits(
            &snapshot.outputs,
            snapshot.tip,
            now,
        ) {
            return (events, Err(e));
        }
        let ready = self.ready_receives(now);
        (events, Ok(ready))
    }
}

proof fn lemma_same_events(
    a: BackendView,
    b: BackendView,
    intents: Seq<ReceiveIntent>,
    spendable: Seq<Seq<char>>,
)
    requires
        a.receiver == b.receiver,
    ensures
        confirmed_events(a, intents, spendable) == confirmed_events(b, intents, spendable),
{
    let pa = |i: ReceiveIntent|
        finalizes(i, spendable) && a.is_onramp(i.quote_id);
    let pb = |i: ReceiveIntent|
        finalizes(i, spendable) && b.is_onramp(i.quote_id);
    assert(pa =~= pb);
}

proof fn lemma_told_apart(state: ArkState)
    requires
        state.is_sound(),
    ensures
        forall|i: int, j: int|
            0 <= i < j < values_of(state.receive_intents).len() ==> (#[trigger] values_of(
                state.receive_intents,
            )[i]).deposit_outpoint != (#[trigger] values_of(
                state.receive_intents,
            )[j]).deposit_outpoint,
        forall|k: Seq<char>| #[trigger]
            state.receive_intents.dom().contains(k) ==> exists|i: int|
                0 <= i < values_of(state.receive_intents).len() && #[trigger] values_of(
                    state.receive_intents,
                )[i] == state.receive_intents[k] && values_of(
                    state.receive_intents,
                )[i].deposit_outpoint == k,
        forall|i: int|
            0 <= i < values_of(state.receive_intents).len() ==> state.receive_intents.dom().contains(
                (#[trigger] values_of(state.receive_intents)[i]).deposit_outpoint,
            ),
{
    let m = state.receive_intents;
    let all = values_of(m);
    let keys = key_order(m);
    lemma_values_listed(m);
    lemma_key_order(m);
    assert forall|i: int, j: int| 0 <= i < j < all.len() implies (#[trigger] all[i]).deposit_outpoint
        != (#[trigger] all[j]).deposit_outpoint by {
        assert(precedes(keys[i], keys[j]));
        lemma_before_one_way(keys[i], keys[j]);
        assert(m.dom().contains(keys[i]) && m.dom().contains(keys[j]));
    }
    assert forall|k: Seq<char>| #[trigger] m.dom().contains(k) implies exists|i: int|
        0 <= i < all.len() && #[trigger] all[i] == m[k] && all[i].deposit_outpoint == k by {
        assert(keys.contains(k));
        let i = choose|i: int| 0 <= i < keys.len() && keys[i] == k;
        assert(all[i] == m[k]);
    }
}

/// Recovery that goes well leaves no board in preparation, adds no deposit and takes none out, and
/// touches none but those in preparation. A deposit that a board spends is boarding after it, one
/// that the wallet can still spend can be tried again, and one that is gone is put up for review.
pub proof fn law_recovery_reaches_every_deposit(
    store: StoreView,
    snap: Snapshot,
    now: u64,
    k: Seq<char>,
)
    requires
        store.state.is_sound(),
        recovered(store, snap, now).1 is Ok,
    ensures
        ({
            let before = store.state.receive_intents;
            let after = recovered(store, snap, now).0.state;
            &&& after == (ArkState { receive_intents: after.receive_intents, ..store.state })
            &&& after.receive_intents.dom().contains(k) == before.dom().contains(k)
            &&& before.dom().contains(k) && !(before[k].state is BoardPreparing)
                ==> after.receive_intents[k] == before[k]
            &&& before.dom().contains(k) && before[k].state is BoardPreparing ==> (outpoint_parsed(k)
                matches Ok(o) && snap.boards matches Ok(boards) && {
                let spent = exists|i: int|
                    0 <= i < boards.len() && (#[trigger] boards[i]).funding_inputs.contains(o);
                let there = exists|i: int|
                    0 <= i < snap.outputs.len() && (#[trigger] snap.outputs[i]).outpoint == o;
                let next = after.receive_intents[k];
                &&& next.quote_id == before[k].quote_id && next.deposit_outpoint == k
                    && next.gross_sat == before[k].gross_sat
                &&& spent <==> next.state is Boarding
                &&& !spent && there <==> next.state is RetryableFailed
                &&& !spent && !there <==> next.state is NeedsReview
            })
        }),
{
    let before = store.state.receive_intents;
    let items = values_of(before);
    let step = |s: ArkState, i: ReceiveIntent| recovery(i, snap.boards, snap.unspent(), now);
    lemma_told_apart(store.state);
    lemma_each_is_stepped(store, items, step);
    let after = recovered(store, snap, now).0.state;
    if before.dom().contains(k) {
        let i = choose|i: int|
            0 <= i < items.len() && #[trigger] items[i] == before[k] && items[i].deposit_outpoint
                == k;
        assert(step(store.state, items[i]) == recovery(
            before[k],
            snap.boards,
            snap.unspent(),
            now,
        ));
        if before[k].state is BoardPreparing {
            if let Ok(o) = outpoint_parsed(k) {
                if let Ok(boards) = snap.boards {
                    law_recovery_resolves_interrupted_boards(
                        before[k],
                        boards,
                        snap.unspent(),
                        now,
                    );
                    let listed = snap.unspent();
                    if listed.contains(o) {
                        let at = choose|at: int| 0 <= at < listed.len() && listed[at] == o;
                        assert(snap.outputs[at].outpoint == o);
                    }
                    if exists|at: int|
                        0 <= at < snap.outputs.len() && (#[trigger] snap.outputs[at]).outpoint
                            == o {
                        let at = choose|at: int|
                            0 <= at < snap.outputs.len() && (#[trigger] snap.outputs[at]).outpoint
                                == o;
                        assert(listed[at] == o);
                    }
                }
            }
        }
    } else {
        assert forall|i: int| 0 <= i < items.len() implies (#[trigger] items[i]).deposit_outpoint
            != k by {}
        assert(after.receive_intents.dom().contains(k) == before.dom().contains(k));
    }
}

/// Finalizing reaches every deposit and adds none: after it, a deposit is finalized exactly when it
/// was before, or when it was boarding and every VTXO of its board can be spent. What was boarding
/// is finalized with the board and the amount that were noted; everything else is as it was.
pub proof fn law_finalizing_reaches_every_deposit(
    store: StoreView,
    snap: Snapshot,
    now: u64,
    k: Seq<char>,
)
    requires
        store.state.is_sound(),
    ensures
        ({
            let before = store.state.receive_intents;
            let after = all_finalized(store, snap, now).state;
            &&& after == (ArkState { receive_intents: after.receive_intents, ..store.state })
            &&& after.receive_intents.dom().contains(k) == before.dom().contains(k)
            &&& before.dom().contains(k) ==> {
                let next = after.receive_intents[k];
                let ready = before[k].state is Boarding && forall|i: int|
                    0 <= i < before[k].state->Boarding_board_vtxo_ids.len() ==> (vtxo_id_parsed(
                        #[trigger] before[k].state->Boarding_board_vtxo_ids[i],
                    ) matches Ok(id) && snap.spendable.contains(id));
                &&& next.state is Finalized <==> before[k].state is Finalized || ready
                &&& ready ==> next.quote_id == before[k].quote_id && next.state->Finalized_amount_sat
                    == before[k].state->Boarding_amount_sat && next.state->Finalized_board_txid
                    == before[k].state->Boarding_board_txid && next.state->Finalized_board_vout
                    == before[k].state->Boarding_board_vout
                &&& !ready ==> next == before[k]
            }
        }),
{
    let before = store.state.receive_intents;
    let items = values_of(before);
    let step = |s: ArkState, i: ReceiveIntent| finalization(i, snap.spendable, now);
    lemma_told_apart(store.state);
    lemma_never_fails(store, items, step);
    lemma_each_is_stepped(store, items, step);
    let after = all_finalized(store, snap, now).state;
    if before.dom().contains(k) {
        let i = choose|i: int|
            0 <= i < items.len() && #[trigger] items[i] == before[k] && items[i].deposit_outpoint
                == k;
        assert(step(store.state, items[i]) == finalization(before[k], snap.spendable, now));
        law_finalized_when_all_is_spendable(before[k], snap.spendable, now);
    } else {
        assert forall|i: int| 0 <= i < items.len() implies (#[trigger] items[i]).deposit_outpoint
            != k by {}
        assert(after.receive_intents.dom().contains(k) == before.dom().contains(k));
    }
}

proof fn lemma_never_fails(
    store: StoreView,
    items: Seq<ReceiveIntent>,
    step: spec_fn(ArkState, ReceiveIntent) -> Result<Option<ReceiveIntent>, Failure>,
)
    requires
        forall|s: ArkState, x: ReceiveIntent| #[trigger] step(s, x) is Ok,
    ensures
        receives_stepped(store, items, step).1 is Ok,
    decreases items.len(),
{
    if items.len() > 0 {
        lemma_never_fails(store, items.drop_last(), step);
    }
}

proof fn lemma_detection_keeps(
    store: StoreView,
    outputs: Seq<Deposit>,
    snap: Snapshot,
    network: Network,
    now: u64,
)
    requires
        store.state.is_sound(),
    ensures
        ({
            let step = |s: ArkState, o: Deposit| detection(s, o, network, snap.tip, now);
            let after = receives_stepped(store, outputs, step).0.state;
            &&& after.is_sound()
            &&& after == (ArkState { receive_intents: after.receive_intents, ..store.state })
            &&& forall|k: Seq<char>| #[trigger]
                store.state.receive_intents.dom().contains(k)
                    ==> after.receive_intents.dom().contains(k) && after.receive_intents[k]
                    == store.state.receive_intents[k]
            &&& forall|k: Seq<char>| #[trigger]
                after.receive_intents.dom().contains(k)
                    && !store.state.receive_intents.dom().contains(k) ==> exists|i: int|
                    0 <= i < outputs.len() && is_deposit(
                        store.state,
                        #[trigger] outputs[i],
                        network,
                        snap.tip,
                        after.receive_intents[k],
                    )
        }),
    decreases outputs.len(),
{
    let step = |s: ArkState, o: Deposit| detection(s, o, network, snap.tip, now);
    let after = receives_stepped(store, outputs, step).0.state;
    let m = store.state.receive_intents;
    if outputs.len() > 0 {
        let front = outputs.drop_last();
        lemma_detection_keeps(store, front, snap, network, now);
        let before = receives_stepped(store, front, step).0.state;
        let last = outputs.len() - 1;
        assert(outputs.last() == outputs[last]);
        law_detected_deposit_paid_its_quote(before, outputs[last], network, snap.tip, now);
        assert(step(before, outputs[last]) == detection(
            before,
            outputs[last],
            network,
            snap.tip,
            now,
        ));
        assert forall|k: Seq<char>| #[trigger]
            after.receive_intents.dom().contains(k) && !m.dom().contains(k) implies exists|i: int|
            0 <= i < outputs.len() && is_deposit(
                store.state,
                #[trigger] outputs[i],
                network,
                snap.tip,
                after.receive_intents[k],
            ) by {
            if before.receive_intents.dom().contains(k) {
                let i = choose|i: int|
                    0 <= i < front.len() && is_deposit(
                        store.state,
                        #[trigger] front[i],
                        network,
                        snap.tip,
                        before.receive_intents[k],
                    );
                assert(outputs[i] == front[i]);
                assert(after.receive_intents[k] == before.receive_intents[k]);
            } else {
                assert(is_deposit(
                    store.state,
                    outputs[last],
                    network,
                    snap.tip,
                    after.receive_intents[k],
                ));
            }
        }
    }
}

/// Whether a deposit is what an output brought: the output is confirmed, and pays the address on
/// record for the quote of the deposit.
pub open spec fn is_deposit(
    state: ArkState,
    output: Deposit,
    network: Network,
    tip: u32,
    intent: ReceiveIntent,
) -> bool {
    &&& intent.deposit_outpoint == output.outpoint
    &&& intent.gross_sat == output.value_sat
    &&& intent.state is Detected
    &&& output.height matches Some(height) && height <= tip
    &&& state.receive_addresses.dom().contains(intent.quote_id)
    &&& address_of_script(output.script, network) == Some(
        state.receive_addresses[intent.quote_id],
    )
}

/// Detection leaves every deposit on record alone and changes no other table; and every deposit
/// that it adds is what a confirmed output of the wallet brought, for the quote whose address that
/// output pays.
pub proof fn law_detection_adds_what_was_paid(
    store: StoreView,
    snap: Snapshot,
    network: Network,
    now: u64,
    k: Seq<char>,
)
    requires
        store.state.is_sound(),
    ensures
        ({
            let before = store.state.receive_intents;
            let after = all_detected(store, snap, network, now).0.state;
            &&& after == (ArkState { receive_intents: after.receive_intents, ..store.state })
            &&& before.dom().contains(k) ==> after.receive_intents.dom().contains(k)
                && after.receive_intents[k] == before[k]
            &&& after.receive_intents.dom().contains(k) && !before.dom().contains(k) ==> exists|
                i: int,
            |
                0 <= i < snap.outputs.len() && {
                    let output = #[trigger] snap.outputs[i];
                    let intent = after.receive_intents[k];
                    &&& output.outpoint == k && intent.deposit_outpoint == k
                    &&& intent.gross_sat == output.value_sat
                    &&& intent.state is Detected
                    &&& output.height matches Some(height) && height <= snap.tip
                    &&& store.state.receive_addresses.dom().contains(intent.quote_id)
                    &&& address_of_script(output.script, network) == Some(
                        store.state.receive_addresses[intent.quote_id],
                    )
                }
        }),
{
    lemma_detection_keeps(store, snap.outputs, snap, network, now);
}

proof fn lemma_paid_is_detected(
    store: StoreView,
    outputs: Seq<Deposit>,
    snap: Snapshot,
    network: Network,
    now: u64,
    i: int,
    q: Seq<char>,
)
    requires
        store.state.is_sound(),
        0 <= i < outputs.len(),
        outputs[i].height matches Some(height) && 1 <= snap.tip && height <= snap.tip,
        store.state.receive_addresses.dom().contains(q),
        address_of_script(outputs[i].script, network) == Some(store.state.receive_addresses[q]),
        receives_stepped(
            store,
            outputs,
            |s: ArkState, o: Deposit| detection(s, o, network, snap.tip, now),
        ).1 is Ok,
    ensures
        receives_stepped(
            store,
            outputs,
            |s: ArkState, o: Deposit| detection(s, o, network, snap.tip, now),
        ).0.state.receive_intents.dom().contains(outputs[i].outpoint),
    decreases outputs.len(),
{
    let step = |s: ArkState, o: Deposit| detection(s, o, network, snap.tip, now);
    let front = outputs.drop_last();
    let before = receives_stepped(store, front, step).0.state;
    assert(outputs.last() == outputs[outputs.len() - 1]);
    assert(step(before, outputs.last()) == detection(
        before,
        outputs.last(),
        network,
        snap.tip,
        now,
    ));
    lemma_detection_keeps(store, front, snap, network, now);
    if i < front.len() {
        assert(front[i] == outputs[i]);
        lemma_paid_is_detected(store, front, snap, network, now, i, q);
    } else if !before.receive_intents.dom().contains(outputs[i].outpoint) {
        law_paid_address_is_detected(before, outputs[i], network, snap.tip, now, q);
        law_detected_deposit_paid_its_quote(before, outputs[i], network, snap.tip, now);
    }
}

/// Detection that goes well passes over no deposit: every confirmed output of the wallet that pays
/// an address on record has a deposit under its outpoint after it.
pub proof fn law_detection_passes_over_nothing(
    store: StoreView,
    snap: Snapshot,
    network: Network,
    now: u64,
    i: int,
    q: Seq<char>,
)
    requires
        store.state.is_sound(),
        all_detected(store, snap, network, now).1 is Ok,
        0 <= i < snap.outputs.len(),
        snap.outputs[i].height matches Some(height) && 1 <= snap.tip && height <= snap.tip,
        store.state.receive_addresses.dom().contains(q),
        address_of_script(snap.outputs[i].script, network) == Some(
            store.state.receive_addresses[q],
        ),
    ensures
        all_detected(store, snap, network, now).0.state.receive_intents.dom().contains(
            snap.outputs[i].outpoint,
        ),
{
    lemma_paid_is_detected(store, snap.outputs, snap, network, now, i, q);
}

/// What the wallet can spend on chain is the outpoints of its outputs, in order.
pub proof fn law_unspent_are_the_outputs(snap: Snapshot, i: int)
    requires
        0 <= i < snap.outputs.len(),
    ensures
        snap.unspent().len() == snap.outputs.len(),
        snap.unspent()[i] == snap.outputs[i].outpoint,
{
}

/// What a [`WalletSnapshot`] says is what its fields hold, each under its own name.
pub proof fn law_wallet_snapshot_says_what_it_holds(x: WalletSnapshot)
    ensures
        x@.boards == boards_result(x.boards),
        x@.outputs == deposits_view(x.outputs@),
        x@.spendable == texts(x.spendable@),
        x@.tip == x.tip,
{
}

} // verus!
