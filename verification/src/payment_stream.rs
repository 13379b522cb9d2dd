//! What holds of a whole run of the stream of payment events, with checks by the mint and other work
//! in between.

use crate::adapters::{hex_text, quote_id_parsed};
use crate::ark_store::{
    finalized_for, has_hash, law_store_stays_sound, next_unreported, quote_for_hash, ArkState,
    StateRow, StoreView,
};
use crate::credits::reported_rows;
use crate::intents::ReceiveIntent;
use crate::order::{key_order, lemma_before_one_way, lemma_key_order, precedes};
use crate::payment::Identifier;
use crate::requests::{next_lightning_receive, receive_identifier, round_source, Invoiced};
use crate::seqs::{lemma_first_found, lemma_found, values_of};
use vstd::prelude::*;

verus! {

/// What happens while the stream runs.
pub enum StreamStep {
    /// The stream is started.
    Started,
    /// The stream is stopped.
    Stopped,
    /// The stream asks for a Lightning receive, of those that the wallet lists.
    LightningAsked { receives: Seq<Invoiced> },
    /// The stream asks for a deposit.
    DepositAsked,
    /// The mint checks a quote for deposits, and credits it.
    DepositsChecked { quote_id: Seq<char> },
    /// The mint checks a Lightning receive, which the wallet may know, and credits it.
    LightningChecked { identifier: Identifier, receive: Option<Invoiced> },
    /// Anything else is written.
    Written { row: StateRow },
}

/// What the mint is told of.
pub enum Incoming {
    Lightning { lookup_id: Seq<char> },
    Deposit { outpoint: Seq<char> },
}

/// The payments that the mint is told of in a step.
pub open spec fn told(state: ArkState, step: StreamStep) -> Set<Incoming> {
    match step {
        StreamStep::LightningAsked { receives } => match next_lightning_receive(state, receives) {
            Some(r) => set![Incoming::Lightning { lookup_id: receive_identifier(state, r).text() }],
            None => Set::empty(),
        },
        StreamStep::DepositAsked => match next_unreported(state) {
            Some(d) if quote_id_parsed(d.quote_id) is Ok => set![
                Incoming::Deposit { outpoint: d.deposit_outpoint }
            ],
            _ => Set::empty(),
        },
        StreamStep::DepositsChecked { quote_id } => Set::new(
            |p: Incoming|
                p matches Incoming::Deposit { outpoint } && reported_rows(
                    finalized_for(state, quote_id),
                ).contains(StateRow::ReceiveReported { outpoint }),
        ),
        StreamStep::LightningChecked { identifier, receive } => match receive {
            Some(r) if r.finished => set![Incoming::Lightning { lookup_id: identifier.text() }],
            _ => Set::empty(),
        },
        _ => Set::empty(),
    }
}

/// The store after a step.
pub open spec fn stepped(store: StoreView, step: StreamStep) -> StoreView {
    let state = store.state;
    match step {
        StreamStep::LightningAsked { receives } => match next_lightning_receive(state, receives) {
            Some(r) => store.put(
                StateRow::LightningReceiveReported {
                    lookup_id: receive_identifier(state, r).text(),
                },
            ),
            None => store,
        },
        StreamStep::DepositAsked => match next_unreported(state) {
            Some(d) if quote_id_parsed(d.quote_id) is Ok => store.put(
                StateRow::ReceiveReported { outpoint: d.deposit_outpoint },
            ),
            _ => store,
        },
        StreamStep::DepositsChecked { quote_id } => store.put_all(
            reported_rows(finalized_for(state, quote_id)),
        ),
        StreamStep::LightningChecked { identifier, receive } => match receive {
            Some(r) if r.finished => store.put(
                StateRow::LightningReceiveReported { lookup_id: identifier.text() },
            ),
            _ => store,
        },
        StreamStep::Written { row } => store.put(row),
        _ => store,
    }
}

/// The store after several steps, one after the other.
pub open spec fn run(store: StoreView, steps: Seq<StreamStep>) -> StoreView
    decreases steps.len(),
{
    if steps.len() == 0 {
        store
    } else {
        stepped(run(store, steps.drop_last()), steps.last())
    }
}

/// Whether the stream is on after several steps.
pub open spec fn stays_active(active: bool, steps: Seq<StreamStep>) -> bool
    decreases steps.len(),
{
    if steps.len() == 0 {
        active
    } else {
        match steps.last() {
            StreamStep::Started => true,
            StreamStep::Stopped => false,
            _ => stays_active(active, steps.drop_last()),
        }
    }
}

/// Whether it is the stream that asks in a step.
pub open spec fn is_of_stream(step: StreamStep) -> bool {
    step is LightningAsked || step is DepositAsked
}

spec fn is_reported(state: ArkState, payment: Incoming) -> bool {
    match payment {
        Incoming::Lightning { lookup_id } => state.reported_lightning_receives.contains(lookup_id),
        Incoming::Deposit { outpoint } => state.reported_receives.contains(outpoint),
    }
}

proof fn lemma_rows_report(store: StoreView, rows: Seq<StateRow>, payment: Incoming)
    ensures
        is_reported(store.state, payment) ==> is_reported(store.put_all(rows).state, payment),
        payment matches Incoming::Deposit { outpoint } ==> rows.contains(
            StateRow::ReceiveReported { outpoint },
        ) ==> is_reported(store.put_all(rows).state, payment),
    decreases rows.len(),
{
    if rows.len() > 0 {
        let front = rows.drop_last();
        lemma_rows_report(store, front, payment);
        if let Incoming::Deposit { outpoint } = payment {
            let row = StateRow::ReceiveReported { outpoint };
            if rows.contains(row) && rows.last() != row {
                let i = choose|i: int| 0 <= i < rows.len() && rows[i] == row;
                assert(front[i] == row);
            }
        }
    }
}

proof fn lemma_step_reports(store: StoreView, step: StreamStep, payment: Incoming)
    ensures
        is_reported(store.state, payment) ==> is_reported(stepped(store, step).state, payment),
        told(store.state, step).contains(payment) ==> is_reported(
            stepped(store, step).state,
            payment,
        ),
{
    if let StreamStep::DepositsChecked { quote_id } = step {
        lemma_rows_report(store, reported_rows(finalized_for(store.state, quote_id)), payment);
    }
}

proof fn lemma_run_next(store: StoreView, steps: Seq<StreamStep>, i: int)
    requires
        0 <= i < steps.len(),
    ensures
        run(store, steps.take(i + 1)) == stepped(run(store, steps.take(i)), steps[i]),
{
    assert(steps.take(i + 1).drop_last() =~= steps.take(i));
    assert(steps.take(i + 1).last() == steps[i]);
}

proof fn lemma_stays_reported(
    store: StoreView,
    steps: Seq<StreamStep>,
    i: int,
    j: int,
    payment: Incoming,
)
    requires
        0 <= i <= j <= steps.len(),
        is_reported(run(store, steps.take(i)).state, payment),
    ensures
        is_reported(run(store, steps.take(j)).state, payment),
    decreases j - i,
{
    if i < j {
        lemma_run_next(store, steps, i);
        lemma_step_reports(run(store, steps.take(i)), steps[i], payment);
        lemma_stays_reported(store, steps, i + 1, j, payment);
    }
}

/// The stream tells of a payment at most once, and not at all once a check has told of it: what
/// the mint was told of in some step of a run, the stream does not tell of in a later one.
pub proof fn law_stream_tells_once(
    store: StoreView,
    steps: Seq<StreamStep>,
    i: int,
    j: int,
    payment: Incoming,
)
    requires
        0 <= i < j < steps.len(),
        told(run(store, steps.take(i)).state, steps[i]).contains(payment),
        is_of_stream(steps[j]),
    ensures
        !told(run(store, steps.take(j)).state, steps[j]).contains(payment),
{
    let before = run(store, steps.take(i));
    lemma_run_next(store, steps, i);
    lemma_step_reports(before, steps[i], payment);
    lemma_stays_reported(store, steps, i + 1, j, payment);
    let state = run(store, steps.take(j)).state;
    match steps[j] {
        StreamStep::LightningAsked { receives } => {
            let wanted = |r: Invoiced|
                r.finished && !state.reported_lightning_receives.contains(
                    receive_identifier(state, r).text(),
                );
            lemma_found(receives, wanted);
        },
        _ => {
            let wanted = |r: ReceiveIntent|
                r.state is Finalized && !state.reported_receives.contains(r.deposit_outpoint);
            lemma_found(values_of(state.receive_intents), wanted);
        },
    }
}

proof fn lemma_run_stays_sound(store: StoreView, steps: Seq<StreamStep>)
    requires
        store.state.is_sound(),
    ensures
        run(store, steps).state.is_sound(),
    decreases steps.len(),
{
    if steps.len() > 0 {
        lemma_run_stays_sound(store, steps.drop_last());
        let before = run(store, steps.drop_last());
        if let StreamStep::DepositsChecked { quote_id } = steps.last() {
            law_store_stays_sound(before, reported_rows(finalized_for(before.state, quote_id)));
        }
    }
}

/// A deposit that the stream tells of is on record and finalized.
pub proof fn law_stream_tells_of_finalized_deposits(
    store: StoreView,
    steps: Seq<StreamStep>,
    j: int,
    outpoint: Seq<char>,
)
    requires
        store.state.is_sound(),
        0 <= j < steps.len(),
        is_of_stream(steps[j]),
        told(run(store, steps.take(j)).state, steps[j]).contains(Incoming::Deposit { outpoint }),
    ensures
        ({
            let intents = run(store, steps.take(j)).state.receive_intents;
            intents.dom().contains(outpoint) && intents[outpoint].state is Finalized
        }),
{
    lemma_run_stays_sound(store, steps.take(j));
    let state = run(store, steps.take(j)).state;
    let wanted = |r: ReceiveIntent|
        r.state is Finalized && !state.reported_receives.contains(r.deposit_outpoint);
    let all = values_of(state.receive_intents);
    lemma_found(all, wanted);
    lemma_key_order(state.receive_intents);
    let keys = key_order(state.receive_intents);
    let d = next_unreported(state)->0;
    let at = choose|at: int| 0 <= at < all.len() && all[at] == d;
    assert(keys.contains(keys[at]));
    assert(state.receive_intents.dom().contains(keys[at]));
}

/// A stream that was stopped, and not started again, begins no further round.
pub proof fn law_stopped_stream_ends(active: bool, steps: Seq<StreamStep>, i: int)
    requires
        0 <= i < steps.len(),
        steps[i] is Stopped,
        forall|m: int| i < m < steps.len() ==> !(#[trigger] steps[m] is Started),
    ensures
        round_source(stays_active(active, steps)) is None,
    decreases steps.len(),
{
    let front = steps.drop_last();
    assert(steps.last() == steps[steps.len() - 1]);
    if i < steps.len() - 1 {
        assert(front[i] == steps[i]);
        assert forall|m: int| i < m < front.len() implies !(#[trigger] front[m] is Started) by {
            assert(front[m] == steps[m]);
        }
        law_stopped_stream_ends(active, front, i);
    }
}

// ---- by what a Lightning receive is known ---------------------------------------------------

spec fn holds_hash(quotes: Map<Seq<char>, Seq<char>>, hash: Seq<char>, q: Seq<char>) -> bool {
    quotes.dom().contains(q) && quotes[q] == hash
}

spec fn is_first_holder(quotes: Map<Seq<char>, Seq<char>>, hash: Seq<char>, q: Seq<char>) -> bool {
    &&& holds_hash(quotes, hash, q)
    &&& forall|other: Seq<char>| #[trigger]
        holds_hash(quotes, hash, other) ==> other == q || precedes(q, other)
}

proof fn lemma_quote_for_hash(state: ArkState, hash: Seq<char>)
    requires
        state.is_sound(),
    ensures
        match quote_for_hash(state, hash) {
            Some(q) => is_first_holder(state.lightning_receive_quotes, hash, q),
            None => forall|q: Seq<char>| !holds_hash(state.lightning_receive_quotes, hash, q),
        },
{
    let quotes = state.lightning_receive_quotes;
    let keys = key_order(quotes);
    let wanted = has_hash(state, hash);
    lemma_key_order(quotes);
    lemma_found(keys, wanted);
    if quote_for_hash(state, hash) is Some {
        let at = lemma_first_found(keys, wanted);
        let q = keys[at];
        assert(keys.contains(keys[at]));
        assert(quotes.dom().contains(q));
        assert forall|other: Seq<char>| #[trigger] holds_hash(quotes, hash, other) implies other == q
            || precedes(q, other) by {
            assert(keys.contains(other));
            let i = choose|i: int| 0 <= i < keys.len() && keys[i] == other;
            assert(wanted(keys[i]));
            if i > at {
                assert(precedes(keys[at], keys[i]));
            }
        }
    } else {
        assert forall|q: Seq<char>| !holds_hash(quotes, hash, q) by {
            if quotes.dom().contains(q) {
                assert(keys.contains(q));
                let i = choose|i: int| 0 <= i < keys.len() && keys[i] == q;
                assert(!wanted(keys[i]));
            }
        }
    }
}

proof fn lemma_same_holders(state: ArkState, later: ArkState, hash: Seq<char>)
    requires
        state.is_sound(),
        later.is_sound(),
        forall|q: Seq<char>| #[trigger]
            holds_hash(state.lightning_receive_quotes, hash, q) == holds_hash(
                later.lightning_receive_quotes,
                hash,
                q,
            ),
    ensures
        quote_for_hash(state, hash) == quote_for_hash(later, hash),
{
    lemma_quote_for_hash(state, hash);
    lemma_quote_for_hash(later, hash);
    if quote_for_hash(state, hash) is Some && quote_for_hash(later, hash) is Some {
        let a = quote_for_hash(state, hash)->0;
        let b = quote_for_hash(later, hash)->0;
        assert(holds_hash(state.lightning_receive_quotes, hash, b));
        assert(holds_hash(later.lightning_receive_quotes, hash, a));
        if a != b {
            lemma_before_one_way(a, b);
        }
    } else if quote_for_hash(state, hash) is Some {
        assert(holds_hash(
            later.lightning_receive_quotes,
            hash,
            quote_for_hash(state, hash)->0,
        ));
    } else if quote_for_hash(later, hash) is Some {
        assert(holds_hash(
            state.lightning_receive_quotes,
            hash,
            quote_for_hash(later, hash)->0,
        ));
    }
}

/// When an invoice is handed out for a quote under a payment hash that no other quote has, the
/// mint knows a receive with that hash by the id of the quote.
pub proof fn law_invoice_is_known_by_its_quote(
    state: ArkState,
    quote_id: Seq<char>,
    receive: Invoiced,
)
    requires
        state.is_sound(),
        quote_id_parsed(quote_id) == Ok::<Seq<char>, Seq<char>>(quote_id),
        forall|q: Seq<char>| #[trigger]
            state.lightning_receive_quotes.dom().contains(q) && q != quote_id
                ==> state.lightning_receive_quotes[q] != hex_text(receive.payment_hash),
    ensures
        receive_identifier(
            state.written(
                StateRow::LightningReceiveQuote {
                    quote_id,
                    payment_hash: hex_text(receive.payment_hash),
                },
            ),
            receive,
        ) == Identifier::QuoteId(quote_id),
{
    let hash = hex_text(receive.payment_hash);
    let later = state.written(StateRow::LightningReceiveQuote { quote_id, payment_hash: hash });
    lemma_quote_for_hash(later, hash);
    assert(holds_hash(later.lightning_receive_quotes, hash, quote_id));
}

/// Whether a step leaves it as it was which quotes have a payment hash.
pub open spec fn leaves_invoice(state: ArkState, step: StreamStep, hash: Seq<char>) -> bool {
    match step {
        StreamStep::Written { row: StateRow::LightningReceiveQuote { quote_id, payment_hash } } => {
            &&& payment_hash != hash
            &&& state.lightning_receive_quotes.dom().contains(quote_id)
                ==> state.lightning_receive_quotes[quote_id] != hash
        },
        _ => true,
    }
}

proof fn lemma_quotes_stay(store: StoreView, rows: Seq<StateRow>)
    requires
        forall|i: int| 0 <= i < rows.len() ==> #[trigger] rows[i] is ReceiveReported,
    ensures
        store.put_all(rows).state.lightning_receive_quotes == store.state.lightning_receive_quotes,
    decreases rows.len(),
{
    if rows.len() > 0 {
        assert(rows[rows.len() - 1] is ReceiveReported);
        assert forall|i: int| 0 <= i < rows.drop_last().len() implies #[trigger] rows.drop_last()[i]
            is ReceiveReported by {
            assert(rows.drop_last()[i] == rows[i]);
        }
        lemma_quotes_stay(store, rows.drop_last());
    }
}

proof fn lemma_known_by_the_same(
    store: StoreView,
    steps: Seq<StreamStep>,
    i: int,
    j: int,
    hash: Seq<char>,
)
    requires
        store.state.is_sound(),
        0 <= i <= j <= steps.len(),
        forall|m: int|
            i <= m < j ==> leaves_invoice(
                run(store, steps.take(m)).state,
                #[trigger] steps[m],
                hash,
            ),
    ensures
        quote_for_hash(run(store, steps.take(i)).state, hash) == quote_for_hash(
            run(store, steps.take(j)).state,
            hash,
        ),
    decreases j - i,
{
    if i < j {
        lemma_known_by_the_same(store, steps, i, j - 1, hash);
        lemma_run_next(store, steps, j - 1);
        lemma_run_stays_sound(store, steps.take(j - 1));
        lemma_run_stays_sound(store, steps.take(j));
        let before = run(store, steps.take(j - 1));
        let step = steps[j - 1];
        if let StreamStep::DepositsChecked { quote_id } = step {
            lemma_quotes_stay(before, reported_rows(finalized_for(before.state, quote_id)));
        }
        lemma_same_holders(before.state, run(store, steps.take(j)).state, hash);
    }
}

/// A Lightning receive of which the mint was told in some step of a run, under what it is known by,
/// is not told of again by the stream, as long as it is left as it was which quotes have its
/// payment hash.
pub proof fn law_lightning_receive_is_told_once(
    store: StoreView,
    steps: Seq<StreamStep>,
    i: int,
    j: int,
    receive: Invoiced,
)
    requires
        store.state.is_sound(),
        0 <= i < j < steps.len(),
        told(run(store, steps.take(i)).state, steps[i]).contains(
            Incoming::Lightning {
                lookup_id: receive_identifier(run(store, steps.take(i)).state, receive).text(),
            },
        ),
        forall|m: int|
            i <= m < j ==> leaves_invoice(
                run(store, steps.take(m)).state,
                #[trigger] steps[m],
                hex_text(receive.payment_hash),
            ),
    ensures
        steps[j] matches StreamStep::LightningAsked { receives } ==> (next_lightning_receive(
            run(store, steps.take(j)).state,
            receives,
        ) matches Some(r) ==> r.payment_hash != receive.payment_hash),
{
    if let StreamStep::LightningAsked { receives } = steps[j] {
        let before = run(store, steps.take(i)).state;
        let state = run(store, steps.take(j)).state;
        let payment = Incoming::Lightning { lookup_id: receive_identifier(before, receive).text() };
        lemma_known_by_the_same(store, steps, i, j, hex_text(receive.payment_hash));
        law_stream_tells_once(store, steps, i, j, payment);
        if let Some(r) = next_lightning_receive(state, receives) {
            if r.payment_hash == receive.payment_hash {
                assert(receive_identifier(state, r) == receive_identifier(before, receive));
            }
        }
    }
}

} // verus!
