//! The payment state database, held in memory. Every change is made to the tables and noted as a
//! row to write, so that the rows noted since the last commit turn the committed database into
//! what memory holds.

use crate::intents::{
    LightningSend, LightningSendIntentRecord, OnchainReceiveIntentRecord, OnchainReceiveIntentState,
    OnchainSendIntentRecord, ReceiveIntent, SendIntent,
};
use crate::order::{key_order, lemma_key_order, precedes};
use crate::seqs::{
    first_where, lemma_filter_next, lemma_first_found, lemma_first_is, lemma_first_key,
    lemma_first_row, lemma_found, lemma_no_first, lemma_values_listed, rows_of, values_of,
};
use crate::table::Table;
use crate::text::str_eq;
use vstd::prelude::*;

verus! {

/// A row to be written to the database.
#[derive(Debug)]
pub enum StateWrite {
    ReceiveAddress { quote_id: String, address: String },
    ReceiveIntent { intent: OnchainReceiveIntentRecord },
    ReceiveReported { outpoint: String },
    LightningReceiveQuote { quote_id: String, payment_hash: String },
    LightningReceiveReported { lookup_id: String },
    Send { quote_id: String, send: OnchainSendIntentRecord },
    SendCompleted { quote_id: String },
    LightningSend { payment_hash: String, payment: LightningSendIntentRecord },
    LightningSendCompleted { payment_hash: String },
}

/// What a [`StateWrite`] says.
pub enum StateRow {
    ReceiveAddress { quote_id: Seq<char>, address: Seq<char> },
    ReceiveIntent { intent: ReceiveIntent },
    ReceiveReported { outpoint: Seq<char> },
    LightningReceiveQuote { quote_id: Seq<char>, payment_hash: Seq<char> },
    LightningReceiveReported { lookup_id: Seq<char> },
    Send { quote_id: Seq<char>, send: SendIntent },
    SendCompleted { quote_id: Seq<char> },
    LightningSend { payment_hash: Seq<char>, payment: LightningSend },
    LightningSendCompleted { payment_hash: Seq<char> },
}

impl View for StateWrite {
    type V = StateRow;

    open spec fn view(&self) -> StateRow {
        match self {
            StateWrite::ReceiveAddress { quote_id, address } => StateRow::ReceiveAddress {
                quote_id: quote_id@,
                address: address@,
            },
            StateWrite::ReceiveIntent { intent } => StateRow::ReceiveIntent { intent: intent@ },
            StateWrite::ReceiveReported { outpoint } => StateRow::ReceiveReported {
                outpoint: outpoint@,
            },
            StateWrite::LightningReceiveQuote { quote_id, payment_hash } =>
                StateRow::LightningReceiveQuote {
                    quote_id: quote_id@,
                    payment_hash: payment_hash@,
                },
            StateWrite::LightningReceiveReported { lookup_id } =>
                StateRow::LightningReceiveReported { lookup_id: lookup_id@ },
            StateWrite::Send { quote_id, send } => StateRow::Send {
                quote_id: quote_id@,
                send: send@,
            },
            StateWrite::SendCompleted { quote_id } => StateRow::SendCompleted {
                quote_id: quote_id@,
            },
            StateWrite::LightningSend { payment_hash, payment } => StateRow::LightningSend {
                payment_hash: payment_hash@,
                payment: payment@,
            },
            StateWrite::LightningSendCompleted { payment_hash } =>
                StateRow::LightningSendCompleted { payment_hash: payment_hash@ },
        }
    }
}

impl Clone for StateWrite {
    fn clone(&self) -> (out: Self)
        ensures
            out@ == self@,
    {
        match self {
            StateWrite::ReceiveAddress { quote_id, address } => StateWrite::ReceiveAddress {
                quote_id: quote_id.clone(),
                address: address.clone(),
            },
            StateWrite::ReceiveIntent { intent } => StateWrite::ReceiveIntent {
                intent: intent.clone(),
            },
            StateWrite::ReceiveReported { outpoint } => StateWrite::ReceiveReported {
                outpoint: outpoint.clone(),
            },
            StateWrite::LightningReceiveQuote { quote_id, payment_hash } =>
                StateWrite::LightningReceiveQuote {
                    quote_id: quote_id.clone(),
                    payment_hash: payment_hash.clone(),
                },
            StateWrite::LightningReceiveReported { lookup_id } =>
                StateWrite::LightningReceiveReported { lookup_id: lookup_id.clone() },
            StateWrite::Send { quote_id, send } => StateWrite::Send {
                quote_id: quote_id.clone(),
                send: send.clone(),
            },
            StateWrite::SendCompleted { quote_id } => StateWrite::SendCompleted {
                quote_id: quote_id.clone(),
            },
            StateWrite::LightningSend { payment_hash, payment } => StateWrite::LightningSend {
                payment_hash: payment_hash.clone(),
                payment: payment.clone(),
            },
            StateWrite::LightningSendCompleted { payment_hash } =>
                StateWrite::LightningSendCompleted { payment_hash: payment_hash.clone() },
        }
    }
}

/// What the database holds: nine tables.
#[verifier::ext_equal]
pub struct ArkState {
    /// Quote id to the board funding address that was handed out for it.
    pub receive_addresses: Map<Seq<char>, Seq<char>>,
    /// Deposit outpoint to the deposit.
    pub receive_intents: Map<Seq<char>, ReceiveIntent>,
    /// Deposit outpoints that the mint has been told of.
    pub reported_receives: Set<Seq<char>>,
    /// Quote id to the payment hash of the invoice that was handed out for it.
    pub lightning_receive_quotes: Map<Seq<char>, Seq<char>>,
    /// Payment identifiers of Lightning receives that the mint has been told of.
    pub reported_lightning_receives: Set<Seq<char>>,
    /// Quote id to the on-chain payment.
    pub sends: Map<Seq<char>, SendIntent>,
    /// Quote ids of on-chain payments whose outcome the mint has been told.
    pub completed_sends: Set<Seq<char>>,
    /// Payment hash to the Lightning payment.
    pub lightning_sends: Map<Seq<char>, LightningSend>,
    /// Payment hashes of Lightning payments whose outcome the mint has been told.
    pub completed_lightning_sends: Set<Seq<char>>,
}

impl ArkState {
    /// A database without rows.
    pub open spec fn empty() -> ArkState {
        ArkState {
            receive_addresses: Map::empty(),
            receive_intents: Map::empty(),
            reported_receives: Set::empty(),
            lightning_receive_quotes: Map::empty(),
            reported_lightning_receives: Set::empty(),
            sends: Map::empty(),
            completed_sends: Set::empty(),
            lightning_sends: Map::empty(),
            completed_lightning_sends: Set::empty(),
        }
    }

    /// The database after one row was written.
    pub open spec fn written(self, row: StateRow) -> ArkState {
        match row {
            StateRow::ReceiveAddress { quote_id, address } => ArkState {
                receive_addresses: self.receive_addresses.insert(quote_id, address),
                ..self
            },
            StateRow::ReceiveIntent { intent } => ArkState {
                receive_intents: self.receive_intents.insert(intent.deposit_outpoint, intent),
                ..self
            },
            StateRow::ReceiveReported { outpoint } => ArkState {
                reported_receives: self.reported_receives.insert(outpoint),
                ..self
            },
            StateRow::LightningReceiveQuote { quote_id, payment_hash } => ArkState {
                lightning_receive_quotes: self.lightning_receive_quotes.insert(
                    quote_id,
                    payment_hash,
                ),
                ..self
            },
            StateRow::LightningReceiveReported { lookup_id } => ArkState {
                reported_lightning_receives: self.reported_lightning_receives.insert(lookup_id),
                ..self
            },
            StateRow::Send { quote_id, send } => ArkState {
                sends: self.sends.insert(quote_id, send),
                ..self
            },
            StateRow::SendCompleted { quote_id } => ArkState {
                completed_sends: self.completed_sends.insert(quote_id),
                ..self
            },
            StateRow::LightningSend { payment_hash, payment } => ArkState {
                lightning_sends: self.lightning_sends.insert(payment_hash, payment),
                ..self
            },
            StateRow::LightningSendCompleted { payment_hash } => ArkState {
                completed_lightning_sends: self.completed_lightning_sends.insert(payment_hash),
                ..self
            },
        }
    }

    /// The database after several rows were written, one after the other.
    pub open spec fn all_written(self, rows: Seq<StateRow>) -> ArkState
        decreases rows.len(),
    {
        if rows.len() == 0 {
            self
        } else {
            self.all_written(rows.drop_last()).written(rows.last())
        }
    }

    /// Every table is finite, so that its keys have an order, and every deposit is kept under its
    /// own outpoint.
    pub open spec fn is_sound(self) -> bool {
        &&& self.receive_addresses.dom().finite()
        &&& self.receive_intents.dom().finite()
        &&& self.reported_receives.finite()
        &&& self.lightning_receive_quotes.dom().finite()
        &&& self.reported_lightning_receives.finite()
        &&& self.sends.dom().finite()
        &&& self.completed_sends.finite()
        &&& self.lightning_sends.dom().finite()
        &&& self.completed_lightning_sends.finite()
        &&& forall|k: Seq<char>| #[trigger]
            self.receive_intents.dom().contains(k) ==> self.receive_intents[k].deposit_outpoint
                == k
    }
}

/// Whatever is written to a database, its tables stay finite and its deposits under their own
/// outpoints.
pub proof fn law_state_stays_sound(state: ArkState, rows: Seq<StateRow>)
    requires
        state.is_sound(),
    ensures
        state.all_written(rows).is_sound(),
    decreases rows.len(),
{
    if rows.len() > 0 {
        law_state_stays_sound(state, rows.drop_last());
    }
}

/// The same holds of a store.
pub proof fn law_store_stays_sound(store: StoreView, rows: Seq<StateRow>)
    requires
        store.state.is_sound(),
    ensures
        store.put_all(rows).state.is_sound(),
        store.put_all(rows).state == store.state.all_written(rows),
    decreases rows.len(),
{
    if rows.len() > 0 {
        law_store_stays_sound(store, rows.drop_last());
        law_state_stays_sound(store.state, rows);
    }
}

/// What each of several writes says.
pub open spec fn rows_view(ws: Seq<StateWrite>) -> Seq<StateRow> {
    ws.map_values(|w: StateWrite| w@)
}

/// The state of a store: the database as it was last committed, the tables in memory, and the
/// rows written since the commit.
#[verifier::ext_equal]
pub struct StoreView {
    pub committed: ArkState,
    pub state: ArkState,
    pub pending: Seq<StateRow>,
}

impl StoreView {
    /// The store after one row was written.
    pub open spec fn put(self, row: StateRow) -> StoreView {
        StoreView {
            state: self.state.written(row),
            pending: self.pending.push(row),
            ..self
        }
    }

    /// The store after several rows were written, one after the other.
    pub open spec fn put_all(self, rows: Seq<StateRow>) -> StoreView
        decreases rows.len(),
    {
        if rows.len() == 0 {
            self
        } else {
            self.put_all(rows.drop_last()).put(rows.last())
        }
    }

    /// Writing the pending rows to the committed database gives what memory holds.
    pub open spec fn replays(self) -> bool {
        self.state == self.committed.all_written(self.pending)
    }
}

/// Whatever is written to a store, its pending rows keep turning the committed database into what
/// memory holds.
pub proof fn law_pending_rows_replay(store: StoreView, rows: Seq<StateRow>)
    requires
        store.replays(),
    ensures
        store.put_all(rows).replays(),
        store.put_all(rows).committed == store.committed,
        store.put_all(rows).pending == store.pending + rows,
        store.put_all(rows).state == store.state.all_written(rows),
    decreases rows.len(),
{
    if rows.len() == 0 {
        assert(store.pending + rows =~= store.pending);
    } else {
        law_pending_rows_replay(store, rows.drop_last());
        let before = store.put_all(rows.drop_last());
        let after = before.put(rows.last());
        assert(after.pending.drop_last() =~= before.pending);
        assert(after.pending =~= store.pending + rows);
    }
}

/// What each of several deposits says.
pub open spec fn intents_view(v: Seq<OnchainReceiveIntentRecord>) -> Seq<ReceiveIntent> {
    v.map_values(|r: OnchainReceiveIntentRecord| r@)
}

/// What each of several on-chain payments says, with its key.
pub open spec fn sends_view(v: Seq<(String, OnchainSendIntentRecord)>) -> Seq<
    (Seq<char>, SendIntent),
> {
    v.map_values(|r: (String, OnchainSendIntentRecord)| (r.0@, r.1@))
}

/// What each of several Lightning payments says, with its key.
pub open spec fn lightning_sends_view(v: Seq<(String, LightningSendIntentRecord)>) -> Seq<
    (Seq<char>, LightningSend),
> {
    v.map_values(|r: (String, LightningSendIntentRecord)| (r.0@, r.1@))
}

/// The finalized deposits for a quote.
pub open spec fn finalized_for(state: ArkState, quote_id: Seq<char>) -> Seq<ReceiveIntent> {
    values_of(state.receive_intents).filter(
        |r: ReceiveIntent| r.quote_id == quote_id && r.state is Finalized,
    )
}

/// The first finalized deposit that the mint has not been told of.
pub open spec fn next_unreported(state: ArkState) -> Option<ReceiveIntent> {
    first_where(
        values_of(state.receive_intents),
        |r: ReceiveIntent|
            r.state is Finalized && !state.reported_receives.contains(r.deposit_outpoint),
    )
}

/// Which quotes have an invoice with the given payment hash.
pub open spec fn has_hash(state: ArkState, payment_hash: Seq<char>) -> spec_fn(Seq<char>) -> bool {
    |q: Seq<char>| state.lightning_receive_quotes[q] == payment_hash
}

/// The first quote whose invoice has the given payment hash.
pub open spec fn quote_for_hash(state: ArkState, payment_hash: Seq<char>) -> Option<Seq<char>> {
    first_where(key_order(state.lightning_receive_quotes), has_hash(state, payment_hash))
}

/// The first Lightning payment for a quote, with the hash it is kept under.
pub open spec fn lightning_send_for(state: ArkState, quote_id: Seq<char>) -> Option<
    (Seq<char>, LightningSend),
> {
    first_where(
        rows_of(state.lightning_sends),
        |row: (Seq<char>, LightningSend)| row.1.quote_id == quote_id,
    )
}

/// The payment state store.
pub struct ArkStateStore {
    receive_addresses: Table<String>,
    receive_intents: Table<OnchainReceiveIntentRecord>,
    reported_receives: Table<()>,
    lightning_receive_quotes: Table<String>,
    reported_lightning_receives: Table<()>,
    sends: Table<OnchainSendIntentRecord>,
    completed_sends: Table<()>,
    lightning_sends: Table<LightningSendIntentRecord>,
    completed_lightning_sends: Table<()>,
    pending: Vec<StateWrite>,
    committed: Ghost<ArkState>,
}

impl View for ArkStateStore {
    type V = StoreView;

    closed spec fn view(&self) -> StoreView {
        StoreView {
            committed: self.committed@,
            state: ArkState {
                receive_addresses: self.receive_addresses@,
                receive_intents: self.receive_intents@,
                reported_receives: self.reported_receives@.dom(),
                lightning_receive_quotes: self.lightning_receive_quotes@,
                reported_lightning_receives: self.reported_lightning_receives@.dom(),
                sends: self.sends@,
                completed_sends: self.completed_sends@.dom(),
                lightning_sends: self.lightning_sends@,
                completed_lightning_sends: self.completed_lightning_sends@.dom(),
            },
            pending: rows_view(self.pending@),
        }
    }
}

proof fn lemma_rows_push(ws: Seq<StateWrite>, w: StateWrite)
    ensures
        rows_view(ws.push(w)) == rows_view(ws).push(w@),
{
    assert(rows_view(ws.push(w)) =~= rows_view(ws).push(w@));
}

impl ArkStateStore {
    /// The store of a database that holds the given rows.
    pub fn open(rows: Vec<StateWrite>) -> (store: ArkStateStore)
        ensures
            store@.state == ArkState::empty().all_written(rows_view(rows@)),
            store@.committed == store@.state,
            store@.pending == Seq::<StateRow>::empty(),
            store@.replays(),
            store@.state.is_sound(),
    {
        let mut store = ArkStateStore {
            receive_addresses: Table::new(),
            receive_intents: Table::new(),
            reported_receives: Table::new(),
            lightning_receive_quotes: Table::new(),
            reported_lightning_receives: Table::new(),
            sends: Table::new(),
            completed_sends: Table::new(),
            lightning_sends: Table::new(),
            completed_lightning_sends: Table::new(),
            pending: Vec::new(),
            committed: Ghost(ArkState::empty()),
        };
        proof {
            assert(store@.state =~= ArkState::empty());
            assert(store@.pending =~= Seq::<StateRow>::empty());
        }
        let ghost all = rows_view(rows@);
        let mut i: usize = 0;
        while i < rows.len()
            invariant
                all == rows_view(rows@),
                i <= rows@.len(),
                store@.state == ArkState::empty().all_written(all.take(i as int)),
            decreases rows@.len() - i,
        {
            proof {
                assert(all.take(i + 1).drop_last() =~= all.take(i as int));
                assert(all.take(i + 1).last() == rows@[i as int]@);
            }
            store.write(rows[i].clone());
            i += 1;
        }
        proof {
            assert(all.take(i as int) =~= all);
        }
        store.pending = Vec::new();
        store.committed = Ghost(store@.state);
        proof {
            assert(store@.pending =~= Seq::<StateRow>::empty());
            law_state_stays_sound(ArkState::empty(), all);
        }
        store
    }

    /// Takes the rows written since the last commit, to be committed.
    pub fn take_pending(&mut self) -> (rows: Vec<StateWrite>)
        ensures
            rows_view(rows@) == old(self)@.pending,
            final(self)@ == (StoreView {
                committed: old(self)@.state,
                state: old(self)@.state,
                pending: Seq::empty(),
            }),
            final(self)@.replays(),
    {
        let mut rows: Vec<StateWrite> = Vec::new();
        std::mem::swap(&mut rows, &mut self.pending);
        self.committed = Ghost(self@.state);
        proof {
            assert(self@.pending =~= Seq::<StateRow>::empty());
        }
        rows
    }

    /// Writes one row.
    pub fn write(&mut self, row: StateWrite)
        ensures
            final(self)@ == old(self)@.put(row@),
    {
        match &row {
            StateWrite::ReceiveAddress { quote_id, address } => {
                self.receive_addresses.insert(quote_id.clone(), address.clone());
            },
            StateWrite::ReceiveIntent { intent } => {
                self.receive_intents.insert(intent.deposit_outpoint.clone(), intent.clone());
            },
            StateWrite::ReceiveReported { outpoint } => {
                self.reported_receives.insert(outpoint.clone(), ());
            },
            StateWrite::LightningReceiveQuote { quote_id, payment_hash } => {
                self.lightning_receive_quotes.insert(quote_id.clone(), payment_hash.clone());
            },
            StateWrite::LightningReceiveReported { lookup_id } => {
                self.reported_lightning_receives.insert(lookup_id.clone(), ());
            },
            StateWrite::Send { quote_id, send } => {
                self.sends.insert(quote_id.clone(), send.clone());
            },
            StateWrite::SendCompleted { quote_id } => {
                self.completed_sends.insert(quote_id.clone(), ());
            },
            StateWrite::LightningSend { payment_hash, payment } => {
                self.lightning_sends.insert(payment_hash.clone(), payment.clone());
            },
            StateWrite::LightningSendCompleted { payment_hash } => {
                self.completed_lightning_sends.insert(payment_hash.clone(), ());
            },
        }
        proof {
            lemma_rows_push(self.pending@, row);
        }
        self.pending.push(row);
        proof {
            assert(self@ =~= old(self)@.put(row@));
        }
    }

    // ---- receives ---------------------------------------------------------------------------

    /// Notes the board funding address that was handed out for a quote.
    pub fn put_receive_address(&mut self, quote_id: &str, address: &str)
        ensures
            final(self)@ == old(self)@.put(
                StateRow::ReceiveAddress { quote_id: quote_id@, address: address@ },
            ),
    {
        self.write(
            StateWrite::ReceiveAddress { quote_id: quote_id.to_owned(), address: address.to_owned() },
        );
    }

    /// The addresses that were handed out, by quote id.
    pub fn receive_addresses(&self) -> (addresses: &Table<String>)
        ensures
            addresses@ == self@.state.receive_addresses,
    {
        &self.receive_addresses
    }

    /// The deposit that came with `outpoint`.
    pub fn get_receive_intent(&self, outpoint: &str) -> (intent: Option<OnchainReceiveIntentRecord>)
        ensures
            match intent {
                Some(i) => self@.state.receive_intents.dom().contains(outpoint@)
                    && i@ == self@.state.receive_intents[outpoint@],
                None => !self@.state.receive_intents.dom().contains(outpoint@),
            },
    {
        match self.receive_intents.get(outpoint) {
            Some(i) => Some(i.clone()),
            None => None,
        }
    }

    /// Puts a deposit under its outpoint, in place of what was there.
    pub fn put_receive_intent(&mut self, intent: &OnchainReceiveIntentRecord)
        ensures
            final(self)@ == old(self)@.put(StateRow::ReceiveIntent { intent: intent@ }),
    {
        self.write(StateWrite::ReceiveIntent { intent: intent.clone() });
    }

    /// All deposits, in the order of their outpoints' texts.
    pub fn receive_intents(&self) -> (intents: Vec<OnchainReceiveIntentRecord>)
        ensures
            intents_view(intents@) == values_of(self@.state.receive_intents),
    {
        let mut out: Vec<OnchainReceiveIntentRecord> = Vec::new();
        let n: usize = self.receive_intents.len();
        let ghost all = values_of(self@.state.receive_intents);
        let mut i: usize = 0;
        while i < n
            invariant
                n == key_order(self.receive_intents@).len(),
                all == values_of(self.receive_intents@),
                i <= n,
                intents_view(out@) == all.take(i as int),
            decreases n - i,
        {
            let ghost before = intents_view(out@);
            out.push(self.receive_intents.value_at(i).clone());
            proof {
                assert(intents_view(out@) =~= before.push(all[i as int]));
                assert(all.take(i + 1) =~= all.take(i as int).push(all[i as int]));
            }
            i += 1;
        }
        proof {
            assert(all.take(i as int) =~= all);
        }
        out
    }

    /// The finalized deposits for a quote, in the order of their outpoints' texts.
    pub fn finalized_receives_for_quote(&self, quote_id: &str) -> (intents: Vec<
        OnchainReceiveIntentRecord,
    >)
        ensures
            intents_view(intents@) == finalized_for(self@.state, quote_id@),
    {
        let mut out: Vec<OnchainReceiveIntentRecord> = Vec::new();
        let n: usize = self.receive_intents.len();
        let ghost all = values_of(self@.state.receive_intents);
        let ghost wanted = |r: ReceiveIntent| r.quote_id == quote_id@ && r.state is Finalized;
        let mut i: usize = 0;
        while i < n
            invariant
                n == key_order(self.receive_intents@).len(),
                all == values_of(self.receive_intents@),
                wanted == (|r: ReceiveIntent| r.quote_id == quote_id@ && r.state is Finalized),
                i <= n,
                intents_view(out@) == all.take(i as int).filter(wanted),
            decreases n - i,
        {
            let ghost before = intents_view(out@);
            let intent = self.receive_intents.value_at(i);
            proof {
                assert(intent@ == all[i as int]);
                lemma_filter_next(all, wanted, i as int);
            }
            let finalized = match &intent.state {
                OnchainReceiveIntentState::Finalized { .. } => true,
                _ => false,
            };
            if finalized && str_eq(intent.quote_id.as_str(), quote_id) {
                out.push(intent.clone());
                proof {
                    assert(intents_view(out@) =~= before.push(all[i as int]));
                }
            }
            i += 1;
        }
        proof {
            assert(all.take(i as int) =~= all);
        }
        out
    }

    /// The first finalized deposit that the mint has not been told of.
    pub fn next_unreported_finalized_receive(&self) -> (intent: Option<OnchainReceiveIntentRecord>)
        ensures
            match intent {
                Some(i) => Some(i@) == next_unreported(self@.state),
                None => next_unreported(self@.state) is None,
            },
    {
        let n: usize = self.receive_intents.len();
        let ghost all = values_of(self@.state.receive_intents);
        let ghost reported = self@.state.reported_receives;
        let ghost wanted = |r: ReceiveIntent|
            r.state is Finalized && !reported.contains(r.deposit_outpoint);
        let mut i: usize = 0;
        while i < n
            invariant
                n == key_order(self.receive_intents@).len(),
                all == values_of(self.receive_intents@),
                reported == self@.state.reported_receives,
                wanted == (|r: ReceiveIntent|
                    r.state is Finalized && !reported.contains(r.deposit_outpoint)),
                next_unreported(self@.state) == first_where(all, wanted),
                i <= n,
                forall|j: int| 0 <= j < i ==> !wanted(#[trigger] all[j]),
            decreases n - i,
        {
            let intent = self.receive_intents.value_at(i);
            proof {
                assert(intent@ == all[i as int]);
            }
            let finalized = match &intent.state {
                OnchainReceiveIntentState::Finalized { .. } => true,
                _ => false,
            };
            if finalized && !self.is_receive_reported(intent.deposit_outpoint.as_str()) {
                proof {
                    lemma_first_is(all, wanted, i as int);
                }
                return Some(intent.clone());
            }
            i += 1;
        }
        proof {
            lemma_no_first(all, wanted);
        }
        None
    }

    /// Notes that the mint has been told of a deposit.
    pub fn mark_receive_reported(&mut self, outpoint: &str)
        ensures
            final(self)@ == old(self)@.put(StateRow::ReceiveReported { outpoint: outpoint@ }),
    {
        self.write(StateWrite::ReceiveReported { outpoint: outpoint.to_owned() });
    }

    /// Whether the mint has been told of a deposit.
    pub fn is_receive_reported(&self, outpoint: &str) -> (r: bool)
        ensures
            r == self@.state.reported_receives.contains(outpoint@),
    {
        self.reported_receives.contains(outpoint)
    }

    /// Notes the payment hash of the invoice that was handed out for a quote.
    pub fn put_lightning_receive_quote(&mut self, quote_id: &str, payment_hash: &str)
        ensures
            final(self)@ == old(self)@.put(
                StateRow::LightningReceiveQuote { quote_id: quote_id@, payment_hash: payment_hash@ },
            ),
    {
        self.write(
            StateWrite::LightningReceiveQuote {
                quote_id: quote_id.to_owned(),
                payment_hash: payment_hash.to_owned(),
            },
        );
    }

    /// The payment hash of the invoice that was handed out for a quote.
    pub fn get_lightning_receive_hash(&self, quote_id: &str) -> (hash: Option<String>)
        ensures
            match hash {
                Some(h) => self@.state.lightning_receive_quotes.dom().contains(quote_id@)
                    && h@ == self@.state.lightning_receive_quotes[quote_id@],
                None => !self@.state.lightning_receive_quotes.dom().contains(quote_id@),
            },
    {
        match self.lightning_receive_quotes.get(quote_id) {
            Some(h) => Some(h.clone()),
            None => None,
        }
    }

    /// The first quote whose invoice has the given payment hash.
    pub fn lightning_receive_quote_for_hash(&self, payment_hash: &str) -> (quote_id: Option<String>)
        ensures
            match quote_id {
                Some(q) => Some(q@) == quote_for_hash(self@.state, payment_hash@),
                None => quote_for_hash(self@.state, payment_hash@) is None,
            },
    {
        let n: usize = self.lightning_receive_quotes.len();
        let ghost m = self.lightning_receive_quotes@;
        let ghost keys = key_order(m);
        let ghost wanted = has_hash(self@.state, payment_hash@);
        let mut i: usize = 0;
        while i < n
            invariant
                m == self.lightning_receive_quotes@,
                keys == key_order(m),
                n == keys.len(),
                wanted == has_hash(self@.state, payment_hash@),
                quote_for_hash(self@.state, payment_hash@) == first_where(keys, wanted),
                i <= n,
                forall|j: int| 0 <= j < i ==> !wanted(#[trigger] keys[j]),
            decreases n - i,
        {
            if str_eq(self.lightning_receive_quotes.value_at(i).as_str(), payment_hash) {
                proof {
                    lemma_first_is(keys, wanted, i as int);
                }
                return Some(self.lightning_receive_quotes.key_at(i).clone());
            }
            i += 1;
        }
        proof {
            lemma_no_first(keys, wanted);
        }
        None
    }

    /// Notes that the mint has been told of a Lightning receive.
    pub fn mark_lightning_receive_reported(&mut self, request_lookup_id: &str)
        ensures
            final(self)@ == old(self)@.put(
                StateRow::LightningReceiveReported { lookup_id: request_lookup_id@ },
            ),
    {
        self.write(
            StateWrite::LightningReceiveReported { lookup_id: request_lookup_id.to_owned() },
        );
    }

    /// Whether the mint has been told of a Lightning receive.
    pub fn is_lightning_receive_reported(&self, request_lookup_id: &str) -> (r: bool)
        ensures
            r == self@.state.reported_lightning_receives.contains(request_lookup_id@),
    {
        self.reported_lightning_receives.contains(request_lookup_id)
    }

    // ---- on-chain payments ------------------------------------------------------------------

    /// Puts an on-chain payment under its quote, in place of what was there.
    pub fn put_send(&mut self, quote_id: &str, send: &OnchainSendIntentRecord)
        ensures
            final(self)@ == old(self)@.put(StateRow::Send { quote_id: quote_id@, send: send@ }),
    {
        self.write(StateWrite::Send { quote_id: quote_id.to_owned(), send: send.clone() });
    }

    /// The on-chain payment for a quote.
    pub fn get_send(&self, quote_id: &str) -> (send: Option<OnchainSendIntentRecord>)
        ensures
            match send {
                Some(s) => self@.state.sends.dom().contains(quote_id@)
                    && s@ == self@.state.sends[quote_id@],
                None => !self@.state.sends.dom().contains(quote_id@),
            },
    {
        match self.sends.get(quote_id) {
            Some(s) => Some(s.clone()),
            None => None,
        }
    }

    /// All on-chain payments with the quotes they are kept under, in the order of the quotes.
    pub fn sends(&self) -> (sends: Vec<(String, OnchainSendIntentRecord)>)
        ensures
            sends_view(sends@) == rows_of(self@.state.sends),
    {
        let mut out: Vec<(String, OnchainSendIntentRecord)> = Vec::new();
        let n: usize = self.sends.len();
        let ghost all = rows_of(self@.state.sends);
        let mut i: usize = 0;
        while i < n
            invariant
                n == key_order(self.sends@).len(),
                all == rows_of(self.sends@),
                i <= n,
                sends_view(out@) == all.take(i as int),
            decreases n - i,
        {
            let ghost before = sends_view(out@);
            out.push((self.sends.key_at(i).clone(), self.sends.value_at(i).clone()));
            proof {
                assert(sends_view(out@) =~= before.push(all[i as int]));
                assert(all.take(i + 1) =~= all.take(i as int).push(all[i as int]));
            }
            i += 1;
        }
        proof {
            assert(all.take(i as int) =~= all);
        }
        out
    }

    /// Notes that the mint has been told the outcome of an on-chain payment.
    pub fn mark_send_completed(&mut self, quote_id: &str)
        ensures
            final(self)@ == old(self)@.put(StateRow::SendCompleted { quote_id: quote_id@ }),
    {
        self.write(StateWrite::SendCompleted { quote_id: quote_id.to_owned() });
    }

    /// Whether the mint has been told the outcome of an on-chain payment.
    pub fn is_send_completed(&self, quote_id: &str) -> (r: bool)
        ensures
            r == self@.state.completed_sends.contains(quote_id@),
    {
        self.completed_sends.contains(quote_id)
    }

    // ---- Lightning payments -----------------------------------------------------------------

    /// Puts a Lightning payment under its payment hash, in place of what was there.
    pub fn put_lightning_send(&mut self, payment_hash: &str, send: &LightningSendIntentRecord)
        ensures
            final(self)@ == old(self)@.put(
                StateRow::LightningSend { payment_hash: payment_hash@, payment: send@ },
            ),
    {
        self.write(
            StateWrite::LightningSend {
                payment_hash: payment_hash.to_owned(),
                payment: send.clone(),
            },
        );
    }

    /// The Lightning payment with a payment hash.
    pub fn get_lightning_send(&self, payment_hash: &str) -> (send: Option<
        LightningSendIntentRecord,
    >)
        ensures
            match send {
                Some(s) => self@.state.lightning_sends.dom().contains(payment_hash@)
                    && s@ == self@.state.lightning_sends[payment_hash@],
                None => !self@.state.lightning_sends.dom().contains(payment_hash@),
            },
    {
        match self.lightning_sends.get(payment_hash) {
            Some(s) => Some(s.clone()),
            None => None,
        }
    }

    /// All Lightning payments with the hashes they are kept under, in the order of the hashes.
    pub fn lightning_sends(&self) -> (sends: Vec<(String, LightningSendIntentRecord)>)
        ensures
            lightning_sends_view(sends@) == rows_of(self@.state.lightning_sends),
    {
        let mut out: Vec<(String, LightningSendIntentRecord)> = Vec::new();
        let n: usize = self.lightning_sends.len();
        let ghost all = rows_of(self@.state.lightning_sends);
        let mut i: usize = 0;
        while i < n
            invariant
                n == key_order(self.lightning_sends@).len(),
                all == rows_of(self.lightning_sends@),
                i <= n,
                lightning_sends_view(out@) == all.take(i as int),
            decreases n - i,
        {
            let ghost before = lightning_sends_view(out@);
            out.push(
                (self.lightning_sends.key_at(i).clone(), self.lightning_sends.value_at(i).clone()),
            );
            proof {
                assert(lightning_sends_view(out@) =~= before.push(all[i as int]));
                assert(all.take(i + 1) =~= all.take(i as int).push(all[i as int]));
            }
            i += 1;
        }
        proof {
            assert(all.take(i as int) =~= all);
        }
        out
    }

    /// The first Lightning payment for a quote, with the hash it is kept under.
    pub fn lightning_send_for_quote(&self, quote_id: &str) -> (found: Option<
        (String, LightningSendIntentRecord),
    >)
        ensures
            match found {
                Some((hash, send)) => Some((hash@, send@)) == lightning_send_for(
                    self@.state,
                    quote_id@,
                ),
                None => lightning_send_for(self@.state, quote_id@) is None,
            },
    {
        let n: usize = self.lightning_sends.len();
        let ghost all = rows_of(self@.state.lightning_sends);
        let ghost wanted = |row: (Seq<char>, LightningSend)| row.1.quote_id == quote_id@;
        let mut i: usize = 0;
        while i < n
            invariant
                n == key_order(self.lightning_sends@).len(),
                all == rows_of(self.lightning_sends@),
                wanted == (|row: (Seq<char>, LightningSend)| row.1.quote_id == quote_id@),
                lightning_send_for(self@.state, quote_id@) == first_where(all, wanted),
                i <= n,
                forall|j: int| 0 <= j < i ==> !wanted(#[trigger] all[j]),
            decreases n - i,
        {
            let send = self.lightning_sends.value_at(i);
            proof {
                assert(send@ == all[i as int].1);
            }
            if str_eq(send.quote_id.as_str(), quote_id) {
                proof {
                    lemma_first_is(all, wanted, i as int);
                }
                return Some((self.lightning_sends.key_at(i).clone(), send.clone()));
            }
            i += 1;
        }
        proof {
            lemma_no_first(all, wanted);
        }
        None
    }

    /// Notes that the mint has been told the outcome of a Lightning payment.
    pub fn mark_lightning_send_completed(&mut self, payment_hash: &str)
        ensures
            final(self)@ == old(self)@.put(
                StateRow::LightningSendCompleted { payment_hash: payment_hash@ },
            ),
    {
        self.write(StateWrite::LightningSendCompleted { payment_hash: payment_hash.to_owned() });
    }

    /// Whether the mint has been told the outcome of a Lightning payment.
    pub fn is_lightning_send_completed(&self, payment_hash: &str) -> (r: bool)
        ensures
            r == self@.state.completed_lightning_sends.contains(payment_hash@),
    {
        self.completed_lightning_sends.contains(payment_hash)
    }
}

/// A row that is written is read back: the table holds it under its key, and what the table holds
/// under any other key is as it was.
pub proof fn law_row_reads_back(state: ArkState, row: StateRow, k: Seq<char>)
    ensures
        ({
            let after = state.written(row);
            match row {
                StateRow::ReceiveAddress { quote_id, address } => {
                    &&& after.receive_addresses.dom().contains(quote_id)
                    &&& after.receive_addresses[quote_id] == address
                    &&& k != quote_id ==> {
                        &&& after.receive_addresses.dom().contains(k)
                            == state.receive_addresses.dom().contains(k)
                        &&& after.receive_addresses[k] == state.receive_addresses[k]
                    }
                },
                StateRow::ReceiveIntent { intent } => {
                    &&& after.receive_intents.dom().contains(intent.deposit_outpoint)
                    &&& after.receive_intents[intent.deposit_outpoint] == intent
                    &&& k != intent.deposit_outpoint ==> {
                        &&& after.receive_intents.dom().contains(k)
                            == state.receive_intents.dom().contains(k)
                        &&& after.receive_intents[k] == state.receive_intents[k]
                    }
                },
                StateRow::ReceiveReported { outpoint } => {
                    after.reported_receives.contains(k) <==> k == outpoint
                        || state.reported_receives.contains(k)
                },
                StateRow::LightningReceiveQuote { quote_id, payment_hash } => {
                    &&& after.lightning_receive_quotes.dom().contains(quote_id)
                    &&& after.lightning_receive_quotes[quote_id] == payment_hash
                    &&& k != quote_id ==> {
                        &&& after.lightning_receive_quotes.dom().contains(k)
                            == state.lightning_receive_quotes.dom().contains(k)
                        &&& after.lightning_receive_quotes[k] == state.lightning_receive_quotes[k]
                    }
                },
                StateRow::LightningReceiveReported { lookup_id } => {
                    after.reported_lightning_receives.contains(k) <==> k == lookup_id
                        || state.reported_lightning_receives.contains(k)
                },
                StateRow::Send { quote_id, send } => {
                    &&& after.sends.dom().contains(quote_id)
                    &&& after.sends[quote_id] == send
                    &&& k != quote_id ==> {
                        &&& after.sends.dom().contains(k)
                            == state.sends.dom().contains(k)
                        &&& after.sends[k] == state.sends[k]
                    }
                },
                StateRow::SendCompleted { quote_id } => {
                    after.completed_sends.contains(k) <==> k == quote_id
                        || state.completed_sends.contains(k)
                },
                StateRow::LightningSend { payment_hash, payment } => {
                    &&& after.lightning_sends.dom().contains(payment_hash)
                    &&& after.lightning_sends[payment_hash] == payment
                    &&& k != payment_hash ==> {
                        &&& after.lightning_sends.dom().contains(k)
                            == state.lightning_sends.dom().contains(k)
                        &&& after.lightning_sends[k] == state.lightning_sends[k]
                    }
                },
                StateRow::LightningSendCompleted { payment_hash } => {
                    after.completed_lightning_sends.contains(k) <==> k == payment_hash
                        || state.completed_lightning_sends.contains(k)
                },
            }
        }),
{
}

/// A row that is written touches its own table and no other.
pub proof fn law_other_tables_stay(state: ArkState, row: StateRow)
    ensures
        !(row is ReceiveAddress) ==> state.written(row).receive_addresses == state.receive_addresses,
        !(row is ReceiveIntent) ==> state.written(row).receive_intents == state.receive_intents,
        !(row is ReceiveReported) ==> state.written(row).reported_receives == state.reported_receives,
        !(row is LightningReceiveQuote) ==> state.written(row).lightning_receive_quotes == state.lightning_receive_quotes,
        !(row is LightningReceiveReported) ==> state.written(row).reported_lightning_receives == state.reported_lightning_receives,
        !(row is Send) ==> state.written(row).sends == state.sends,
        !(row is SendCompleted) ==> state.written(row).completed_sends == state.completed_sends,
        !(row is LightningSend) ==> state.written(row).lightning_sends == state.lightning_sends,
        !(row is LightningSendCompleted) ==> state.written(row).completed_lightning_sends == state.completed_lightning_sends,
{
}

/// Rows that are written one after the other: nothing written changes nothing, and writing one list
/// and then another is writing both.
pub proof fn law_rows_are_written_in_turn(state: ArkState, one: Seq<StateRow>, two: Seq<StateRow>)
    ensures
        state.all_written(Seq::empty()) == state,
        state.all_written(one + two) == state.all_written(one).all_written(two),
    decreases two.len(),
{
    if two.len() == 0 {
        assert(one + two =~= one);
    } else {
        law_rows_are_written_in_turn(state, one, two.drop_last());
        assert((one + two).drop_last() =~= one + two.drop_last());
        assert((one + two).last() == two.last());
    }
}

/// The next deposit to tell the mint of is the first, by its outpoint, of those that are finalized
/// and that the mint was not told of.
pub proof fn law_deposits_are_told_in_order(state: ArkState, k: Seq<char>)
    requires
        state.is_sound(),
        state.receive_intents.dom().contains(k),
        state.receive_intents[k].state is Finalized,
        !state.reported_receives.contains(k),
    ensures
        next_unreported(state) matches Some(r) && (r.deposit_outpoint == k || precedes(
            r.deposit_outpoint,
            k,
        )),
{
    let m = state.receive_intents;
    let wanted = |r: ReceiveIntent|
        r.state is Finalized && !state.reported_receives.contains(r.deposit_outpoint);
    let all = values_of(m);
    let keys = key_order(m);
    lemma_key_order(m);
    lemma_values_listed(m);
    let i = choose|i: int| 0 <= i < keys.len() && keys[i] == k;
    assert(keys.contains(k));
    assert(all[i] == m[k] && wanted(all[i]));
    lemma_found(all, wanted);
    let at = lemma_first_found(all, wanted);
    assert(keys.contains(keys[at]));
    if at < i {
        assert(precedes(keys[at], keys[i]));
    }
}

/// The quote that a received payment is for is the first that an invoice with its hash was handed
/// out for. There is one exactly when some invoice has that hash.
pub proof fn law_quote_is_found_by_its_hash(state: ArkState, payment_hash: Seq<char>)
    requires
        state.is_sound(),
    ensures
        match quote_for_hash(state, payment_hash) {
            Some(q) => {
                &&& state.lightning_receive_quotes.dom().contains(q)
                &&& state.lightning_receive_quotes[q] == payment_hash
                &&& forall|k: Seq<char>| #[trigger]
                    state.lightning_receive_quotes.dom().contains(k)
                        && state.lightning_receive_quotes[k] == payment_hash ==> k == q || precedes(
                        q,
                        k,
                    )
            },
            None => forall|k: Seq<char>| #[trigger]
                state.lightning_receive_quotes.dom().contains(k)
                    ==> state.lightning_receive_quotes[k] != payment_hash,
        },
{
    lemma_first_key(state.lightning_receive_quotes, has_hash(state, payment_hash));
}

/// The Lightning payment that is found for a quote is one on record for that quote, under its
/// hash, and one is found exactly when there is one.
pub proof fn law_lightning_send_is_of_the_quote(state: ArkState, quote_id: Seq<char>)
    requires
        state.is_sound(),
    ensures
        match lightning_send_for(state, quote_id) {
            Some((hash, send)) => {
                &&& state.lightning_sends.dom().contains(hash) && state.lightning_sends[hash] == send
                &&& send.quote_id == quote_id
                &&& forall|k: Seq<char>| #[trigger]
                    state.lightning_sends.dom().contains(k) && state.lightning_sends[k].quote_id
                        == quote_id ==> k == hash || precedes(hash, k)
            },
            None => forall|k: Seq<char>| #[trigger]
                state.lightning_sends.dom().contains(k) ==> state.lightning_sends[k].quote_id
                    != quote_id,
        },
{
    lemma_first_row(
        state.lightning_sends,
        |row: (Seq<char>, LightningSend)| row.1.quote_id == quote_id,
    );
}

/// What a [`StateWrite`] says is of its own kind, with what its fields hold.
pub proof fn law_state_write_says_what_it_holds(x: StateWrite)
    ensures
        x is ReceiveAddress <==> x@ is ReceiveAddress,
        x matches StateWrite::ReceiveAddress { quote_id, address } ==> {
            &&& x@ matches StateRow::ReceiveAddress {
                quote_id: said_quote_id,
                address: said_address,
            }
            &&& said_quote_id == quote_id@
            &&& said_address == address@
        },
        x is ReceiveIntent <==> x@ is ReceiveIntent,
        x matches StateWrite::ReceiveIntent { intent } ==> {
            &&& x@ matches StateRow::ReceiveIntent { intent: said_intent }
            &&& said_intent == intent@
        },
        x is ReceiveReported <==> x@ is ReceiveReported,
        x matches StateWrite::ReceiveReported { outpoint } ==> {
            &&& x@ matches StateRow::ReceiveReported { outpoint: said_outpoint }
            &&& said_outpoint == outpoint@
        },
        x is LightningReceiveQuote <==> x@ is LightningReceiveQuote,
        x matches StateWrite::LightningReceiveQuote { quote_id, payment_hash } ==> {
            &&& x@ matches StateRow::LightningReceiveQuote {
                quote_id: said_quote_id,
                payment_hash: said_payment_hash,
            }
            &&& said_quote_id == quote_id@
            &&& said_payment_hash == payment_hash@
        },
        x is LightningReceiveReported <==> x@ is LightningReceiveReported,
        x matches StateWrite::LightningReceiveReported { lookup_id } ==> {
            &&& x@ matches StateRow::LightningReceiveReported { lookup_id: said_lookup_id }
            &&& said_lookup_id == lookup_id@
        },
        x is Send <==> x@ is Send,
        x matches StateWrite::Send { quote_id, send } ==> {
            &&& x@ matches StateRow::Send { quote_id: said_quote_id, send: said_send }
            &&& said_quote_id == quote_id@
            &&& said_send == send@
        },
        x is SendCompleted <==> x@ is SendCompleted,
        x matches StateWrite::SendCompleted { quote_id } ==> {
            &&& x@ matches StateRow::SendCompleted { quote_id: said_quote_id }
            &&& said_quote_id == quote_id@
        },
        x is LightningSend <==> x@ is LightningSend,
        x matches StateWrite::LightningSend { payment_hash, payment } ==> {
            &&& x@ matches StateRow::LightningSend {
                payment_hash: said_payment_hash,
                payment: said_payment,
            }
            &&& said_payment_hash == payment_hash@
            &&& said_payment == payment@
        },
        x is LightningSendCompleted <==> x@ is LightningSendCompleted,
        x matches StateWrite::LightningSendCompleted { payment_hash } ==> {
            &&& x@ matches StateRow::LightningSendCompleted { payment_hash: said_payment_hash }
            &&& said_payment_hash == payment_hash@
        },
{
}

/// Several writes are said each in its place.
pub proof fn law_writes_are_said_in_order(ws: Seq<StateWrite>, i: int)
    requires
        0 <= i < ws.len(),
    ensures
        rows_view(ws).len() == ws.len(),
        rows_view(ws)[i] == ws[i]@,
{
}

/// Several deposits are said each in its place.
pub proof fn law_deposits_are_said_in_order(v: Seq<OnchainReceiveIntentRecord>, i: int)
    requires
        0 <= i < v.len(),
    ensures
        intents_view(v).len() == v.len(),
        intents_view(v)[i] == v[i]@,
{
}

/// Several on-chain payments are said each in its place, with its key.
pub proof fn law_sends_are_said_in_order(v: Seq<(String, OnchainSendIntentRecord)>, i: int)
    requires
        0 <= i < v.len(),
    ensures
        sends_view(v).len() == v.len(),
        sends_view(v)[i] == (v[i].0@, v[i].1@),
{
}

/// Several Lightning payments are said each in its place, with its key.
pub proof fn law_lightning_sends_are_said_in_order(v: Seq<(String, LightningSendIntentRecord)>, i: int)
    requires
        0 <= i < v.len(),
    ensures
        lightning_sends_view(v).len() == v.len(),
        lightning_sends_view(v)[i] == (v[i].0@, v[i].1@),
{
}

} // verus!
