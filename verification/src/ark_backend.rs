//! The payment processor's state, and the parts that its flows share.

use crate::ark_store::{ArkState, ArkStateStore, StateRow, StoreView};
use crate::intents::ReceiveIntent;
use crate::network::Network;
use crate::payjoin_receiver::{PayjoinReceiver, ReceiverView};
use crate::payment::{Failure, SettingsResponse};
use vstd::prelude::*;

verus! {

/// How many confirmations an on-chain deposit needs.
pub const ONCHAIN_CONFIRMATIONS: u32 = 1;

/// The only fee that an on-chain payment can be made with.
pub const ONCHAIN_FEE_INDEX: u32 = 0;

/// In how many blocks an on-chain payment is expected to confirm.
pub const ONCHAIN_ESTIMATED_BLOCKS: u32 = 6;

/// How long to wait before a failed board is tried again.
pub const RETRY_BACKOFF_SECS: u64 = 30;

/// How long a payment attempt may stay without an outcome before somebody has to look at it.
pub const SEND_ATTEMPT_REVIEW_SECS: u64 = 60;

/// The payment processor.
pub struct ArkBackend {
    pub state_store: ArkStateStore,
    pub payjoin: PayjoinReceiver,
    pub network: Network,
    /// The least that the server boards.
    pub min_board_amount_sat: u64,
    /// Whether the mint listens for payment events.
    pub wait_invoice_active: bool,
}

/// What an [`ArkBackend`] holds.
pub struct BackendView {
    pub store: StoreView,
    pub receiver: ReceiverView,
    pub network: Network,
    pub min_board_amount_sat: u64,
    pub active: bool,
}

impl View for ArkBackend {
    type V = BackendView;

    open spec fn view(&self) -> BackendView {
        BackendView {
            store: self.state_store@,
            receiver: self.payjoin@,
            network: self.network,
            min_board_amount_sat: self.min_board_amount_sat,
            active: self.wait_invoice_active,
        }
    }
}

impl BackendView {
    /// The processor with another payment store.
    pub open spec fn with_store(self, store: StoreView) -> BackendView {
        BackendView { store, ..self }
    }

    /// The processor after one row was written to its payment store.
    pub open spec fn put(self, row: StateRow) -> BackendView {
        BackendView { store: self.store.put(row), ..self }
    }

    /// Whether a quote is one of the on-ramp's.
    pub open spec fn is_onramp(self, quote_id: Seq<char>) -> bool {
        self.receiver.onramp.state.quotes.dom().contains(quote_id)
    }
}

/// Goes through a list and, for each item, asks from the state so far what deposit to write, if
/// any. The first failure ends it, and what was written before stays.
pub open spec fn receives_stepped<T>(
    store: StoreView,
    items: Seq<T>,
    step: spec_fn(ArkState, T) -> Result<Option<ReceiveIntent>, Failure>,
) -> (StoreView, Result<(), Failure>)
    decreases items.len(),
{
    if items.len() == 0 {
        (store, Ok(()))
    } else {
        let (before, r) = receives_stepped(store, items.drop_last(), step);
        match r {
            Err(e) => (before, Err(e)),
            Ok(_) => match step(before.state, items.last()) {
                Err(e) => (before, Err(e)),
                Ok(None) => (before, Ok(())),
                Ok(Some(intent)) => (before.put(StateRow::ReceiveIntent { intent }), Ok(())),
            },
        }
    }
}

/// One item more.
pub proof fn lemma_receives_next<T>(
    store: StoreView,
    items: Seq<T>,
    step: spec_fn(ArkState, T) -> Result<Option<ReceiveIntent>, Failure>,
    i: int,
)
    requires
        0 <= i < items.len(),
    ensures
        receives_stepped(store, items.take(i + 1), step) == ({
            let (before, r) = receives_stepped(store, items.take(i), step);
            match r {
                Err(e) => (before, Err(e)),
                Ok(_) => match step(before.state, items[i]) {
                    Err(e) => (before, Err(e)),
                    Ok(None) => (before, Ok(())),
                    Ok(Some(intent)) => (before.put(StateRow::ReceiveIntent { intent }), Ok(())),
                },
            }
        }),
{
    assert(items.take(i + 1).drop_last() =~= items.take(i));
    assert(items.take(i + 1).last() == items[i]);
}

/// A failure decides, whatever comes after it.
pub proof fn lemma_receives_failed<T>(
    store: StoreView,
    items: Seq<T>,
    step: spec_fn(ArkState, T) -> Result<Option<ReceiveIntent>, Failure>,
    n: int,
)
    requires
        0 <= n <= items.len(),
        receives_stepped(store, items.take(n), step).1 is Err,
    ensures
        receives_stepped(store, items, step) == receives_stepped(store, items.take(n), step),
    decreases items.len(),
{
    if n < items.len() {
        assert(items.drop_last().take(n) =~= items.take(n));
        lemma_receives_failed(store, items.drop_last(), step, n);
    } else {
        assert(items.take(n) =~= items);
    }
}

impl ArkBackend {
    /// What the processor can do.
    pub fn get_settings(&self) -> (settings: SettingsResponse)
        ensures
            settings.unit@ == "sat"@,
            !settings.bolt11_mpp,
            !settings.bolt11_amountless,
            settings.bolt11_invoice_description,
            settings.onchain_confirmations == ONCHAIN_CONFIRMATIONS,
            settings.onchain_confirmations == 1,
            settings.onchain_min_receive_amount_sat == self@.min_board_amount_sat,
            settings.onchain_min_send_amount_sat == 1,
    {
        SettingsResponse {
            unit: "sat".to_owned(),
            bolt11_mpp: false,
            bolt11_amountless: false,
            bolt11_invoice_description: true,
            onchain_confirmations: ONCHAIN_CONFIRMATIONS,
            onchain_min_receive_amount_sat: self.min_board_amount_sat,
            onchain_min_send_amount_sat: 1,
        }
    }

    /// The payjoin receiver.
    pub fn payjoin_receiver(&self) -> (receiver: &PayjoinReceiver)
        ensures
            receiver@ == self@.receiver,
    {
        &self.payjoin
    }

    /// Whether the mint listens for payment events.
    pub fn is_payment_event_stream_active(&self) -> (r: bool)
        ensures
            r == self@.active,
    {
        self.wait_invoice_active
    }

    /// Stops the stream of payment events.
    pub fn cancel_payment_event_stream(&mut self)
        ensures
            final(self)@ == (BackendView { active: false, ..old(self)@ }),
    {
        self.wait_invoice_active = false;
    }
}

/// Going through deposits that are told apart by their outpoints, with a step that does not look at
/// the state and writes a deposit under its own outpoint, does to each what the step says and
/// leaves everything else alone.
pub proof fn lemma_each_is_stepped(
    store: StoreView,
    items: Seq<ReceiveIntent>,
    step: spec_fn(ArkState, ReceiveIntent) -> Result<Option<ReceiveIntent>, Failure>,
)
    requires
        forall|i: int, j: int|
            0 <= i < j < items.len() ==> (#[trigger] items[i]).deposit_outpoint != (
            #[trigger] items[j]).deposit_outpoint,
        forall|s: ArkState, t: ArkState, x: ReceiveIntent| #[trigger] step(s, x) == #[trigger] step(t, x),
        forall|s: ArkState, x: ReceiveIntent|
            #[trigger] step(s, x) matches Ok(Some(n)) ==> n.deposit_outpoint == x.deposit_outpoint,
        receives_stepped(store, items, step).1 is Ok,
    ensures
        ({
            let after = receives_stepped(store, items, step).0.state;
            &&& after == (ArkState { receive_intents: after.receive_intents, ..store.state })
            &&& forall|i: int|
                0 <= i < items.len() ==> match step(store.state, #[trigger] items[i]) {
                    Ok(Some(n)) => after.receive_intents.dom().contains(items[i].deposit_outpoint)
                        && after.receive_intents[items[i].deposit_outpoint] == n,
                    Ok(None) => after.receive_intents.dom().contains(items[i].deposit_outpoint)
                        == store.state.receive_intents.dom().contains(items[i].deposit_outpoint)
                        && after.receive_intents[items[i].deposit_outpoint]
                        == store.state.receive_intents[items[i].deposit_outpoint],
                    Err(_) => false,
                }
            &&& forall|k: Seq<char>|
                (forall|i: int| 0 <= i < items.len() ==> (#[trigger] items[i]).deposit_outpoint
                    != k) ==> #[trigger] after.receive_intents.dom().contains(k)
                    == store.state.receive_intents.dom().contains(k) && after.receive_intents[k]
                    == store.state.receive_intents[k]
        }),
    decreases items.len(),
{
    if items.len() > 0 {
        let front = items.drop_last();
        assert forall|i: int, j: int| 0 <= i < j < front.len() implies (
        #[trigger] front[i]).deposit_outpoint != (#[trigger] front[j]).deposit_outpoint by {
            assert(front[i] == items[i] && front[j] == items[j]);
        }
        lemma_each_is_stepped(store, front, step);
        let before = receives_stepped(store, front, step).0.state;
        let after = receives_stepped(store, items, step).0.state;
        let m = store.state.receive_intents;
        let last = items.len() - 1;
        assert(items.last() == items[last]);
        assert(step(before, items[last]) == step(store.state, items[last]));
        assert forall|i: int| 0 <= i < front.len() implies (#[trigger] front[i]).deposit_outpoint
            != items[last].deposit_outpoint by {
            assert(front[i] == items[i]);
        }
        let own = items[last].deposit_outpoint;
        assert(before.receive_intents.dom().contains(own) == m.dom().contains(own));
        assert forall|i: int| 0 <= i < items.len() implies match step(
            store.state,
            #[trigger] items[i],
        ) {
            Ok(Some(n)) => after.receive_intents.dom().contains(items[i].deposit_outpoint)
                && after.receive_intents[items[i].deposit_outpoint] == n,
            Ok(None) => after.receive_intents.dom().contains(items[i].deposit_outpoint)
                == m.dom().contains(items[i].deposit_outpoint)
                && after.receive_intents[items[i].deposit_outpoint] == m[items[i].deposit_outpoint],
            Err(_) => false,
        } by {
            if i < last {
                assert(front[i] == items[i]);
            }
        }
        assert forall|k: Seq<char>|
            (forall|i: int| 0 <= i < items.len() ==> (#[trigger] items[i]).deposit_outpoint
                != k) implies #[trigger] after.receive_intents.dom().contains(k)
            == m.dom().contains(k) && after.receive_intents[k] == m[k] by {
            assert forall|i: int| 0 <= i < front.len() implies (
            #[trigger] front[i]).deposit_outpoint != k by {
                assert(front[i] == items[i]);
            }
            assert(items[last].deposit_outpoint != k);
            assert(before.receive_intents.dom().contains(k) == m.dom().contains(k));
        }
    }
}

/// What an [`ArkBackend`] says is what its fields hold, each under its own name.
pub proof fn law_ark_backend_says_what_it_holds(x: ArkBackend)
    ensures
        x@.store == x.state_store@,
        x@.receiver == x.payjoin@,
        x@.network == x.network,
        x@.min_board_amount_sat == x.min_board_amount_sat,
        x@.active == x.wait_invoice_active,
{
}

/// A row that is written changes the payment store of the processor and nothing else of it.
pub proof fn law_store_is_on_its_own(backend: BackendView, store: StoreView, row: StateRow)
    ensures
        backend.with_store(store).store == store,
        backend.with_store(store) == (BackendView { store, ..backend }),
        backend.put(row).store.state == backend.store.state.written(row),
        backend.put(row).store.pending == backend.store.pending.push(row),
        backend.put(row).store.committed == backend.store.committed,
        backend.put(row) == (BackendView { store: backend.put(row).store, ..backend }),
{
}

/// A quote is one of the on-ramp's exactly while the on-ramp keeps it.
pub proof fn law_onramp_quotes_are_kept(backend: BackendView, quote_id: Seq<char>)
    ensures
        backend.is_onramp(quote_id) <==> backend.receiver.onramp.state.quotes.dom().contains(
            quote_id,
        ),
{
}

/// A pass over a list goes on to its end unless a step fails. It then ends at the first step that
/// does, with that step's failure, and with what was written before; without a failure every step
/// was taken.
pub proof fn law_pass_ends_at_the_first_failure<T>(
    store: StoreView,
    items: Seq<T>,
    step: spec_fn(ArkState, T) -> Result<Option<ReceiveIntent>, Failure>,
)
    ensures
        receives_stepped(store, Seq::<T>::empty(), step) == (store, Ok::<(), Failure>(())),
        receives_stepped(store, items, step).1 matches Err(e) ==> exists|i: int|
            0 <= i < items.len() && receives_stepped(store, items.take(i), step) == (
                receives_stepped(store, items, step).0,
                Ok::<(), Failure>(()),
            ) && step(receives_stepped(store, items, step).0.state, #[trigger] items[i]) == Err::<
                Option<ReceiveIntent>,
                Failure,
            >(e),
        receives_stepped(store, items, step).1 is Ok ==> forall|i: int|
            0 <= i < items.len() ==> step(
                receives_stepped(store, items.take(i), step).0.state,
                #[trigger] items[i],
            ) is Ok,
    decreases items.len(),
{
    if items.len() > 0 {
        let front = items.drop_last();
        let last = items.len() - 1;
        law_pass_ends_at_the_first_failure(store, front, step);
        assert(items.last() == items[last]);
        assert(items.take(last) =~= front);
        match receives_stepped(store, front, step).1 {
            Err(e) => {
                let i = choose|i: int|
                    0 <= i < front.len() && receives_stepped(store, front.take(i), step) == (
                        receives_stepped(store, front, step).0,
                        Ok::<(), Failure>(()),
                    ) && step(
                        receives_stepped(store, front, step).0.state,
                        #[trigger] front[i],
                    ) == Err::<Option<ReceiveIntent>, Failure>(e);
                assert(front.take(i) =~= items.take(i));
                assert(items[i] == front[i]);
            },
            Ok(_) => {
                assert forall|i: int| 0 <= i < last implies step(
                    receives_stepped(store, items.take(i), step).0.state,
                    #[trigger] items[i],
                ) is Ok by {
                    assert(front.take(i) =~= items.take(i));
                    assert(items[i] == front[i]);
                }
            },
        }
    }
}

} // verus!
