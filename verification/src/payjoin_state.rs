//! The on-ramp state database, held in memory: quotes, payjoin session logs, inputs that senders
//! have shown, coins locked to boards, and scripts that were handed out. Every change is made to
//! the tables and noted as a row to write.

use crate::order::{key_order, lemma_key_order};
use crate::seqs::{lemma_filter_holds, lemma_filter_next, values_of};
use crate::session_log::{event_key, is_event_key, log_events, log_keys, log_prefix};
use crate::table::Table;
use crate::text::{
    begins_with, cat2, cat3, chars_of, is_number, pad_zeros, starts_with, str_eq, texts, u64_text,
};
use vstd::prelude::*;

verus! {

/// What the on-ramp keeps of a quote.
#[derive(Debug)]
pub struct OnRampQuoteRecord {
    pub quote_id: String,
    /// Derivation index of the board's user key.
    pub keypair_index: u32,
    /// Expiry height of the VTXO that the board makes.
    pub expiry_height: u32,
    /// The board funding script, in hex.
    pub board_script_hex: String,
    /// The board funding address.
    pub board_address: String,
    /// The URI that was handed to the sender.
    pub bip21_uri: String,
}

/// What an [`OnRampQuoteRecord`] says.
pub struct QuoteRecord {
    pub quote_id: Seq<char>,
    pub keypair_index: u32,
    pub expiry_height: u32,
    pub board_script_hex: Seq<char>,
    pub board_address: Seq<char>,
    pub bip21_uri: Seq<char>,
}

impl View for OnRampQuoteRecord {
    type V = QuoteRecord;

    open spec fn view(&self) -> QuoteRecord {
        QuoteRecord {
            quote_id: self.quote_id@,
            keypair_index: self.keypair_index,
            expiry_height: self.expiry_height,
            board_script_hex: self.board_script_hex@,
            board_address: self.board_address@,
            bip21_uri: self.bip21_uri@,
        }
    }
}

impl Clone for OnRampQuoteRecord {
    fn clone(&self) -> (out: Self)
        ensures
            out@ == self@,
    {
        OnRampQuoteRecord {
            quote_id: self.quote_id.clone(),
            keypair_index: self.keypair_index,
            expiry_height: self.expiry_height,
            board_script_hex: self.board_script_hex.clone(),
            board_address: self.board_address.clone(),
            bip21_uri: self.bip21_uri.clone(),
        }
    }
}

/// A refusal by the state store.
#[derive(Debug)]
pub struct StorageError(pub String);

/// A change to be made in the database.
#[derive(Debug)]
pub enum OnRampWrite {
    Quote { record: OnRampQuoteRecord },
    QuoteRemoved { quote_id: String },
    SessionEvent { key: String, event: String },
    SessionClosed { quote_id: String },
    InputSeen { outpoint: String },
    UtxoLocked { outpoint: String, quote_id: String },
    UtxoUnlocked { outpoint: String },
    ScriptAdvertised { script_hex: String, context: String },
}

/// What an [`OnRampWrite`] says.
pub enum OnRampRow {
    Quote { record: QuoteRecord },
    QuoteRemoved { quote_id: Seq<char> },
    SessionEvent { key: Seq<char>, event: Seq<char> },
    SessionClosed { quote_id: Seq<char> },
    InputSeen { outpoint: Seq<char> },
    UtxoLocked { outpoint: Seq<char>, quote_id: Seq<char> },
    UtxoUnlocked { outpoint: Seq<char> },
    ScriptAdvertised { script_hex: Seq<char>, context: Seq<char> },
}

impl View for OnRampWrite {
    type V = OnRampRow;

    open spec fn view(&self) -> OnRampRow {
        match self {
            OnRampWrite::Quote { record } => OnRampRow::Quote { record: record@ },
            OnRampWrite::QuoteRemoved { quote_id } => OnRampRow::QuoteRemoved {
                quote_id: quote_id@,
            },
            OnRampWrite::SessionEvent { key, event } => OnRampRow::SessionEvent {
                key: key@,
                event: event@,
            },
            OnRampWrite::SessionClosed { quote_id } => OnRampRow::SessionClosed {
                quote_id: quote_id@,
            },
            OnRampWrite::InputSeen { outpoint } => OnRampRow::InputSeen { outpoint: outpoint@ },
            OnRampWrite::UtxoLocked { outpoint, quote_id } => OnRampRow::UtxoLocked {
                outpoint: outpoint@,
                quote_id: quote_id@,
            },
            OnRampWrite::UtxoUnlocked { outpoint } => OnRampRow::UtxoUnlocked {
                outpoint: outpoint@,
            },
            OnRampWrite::ScriptAdvertised { script_hex, context } => OnRampRow::ScriptAdvertised {
                script_hex: script_hex@,
                context: context@,
            },
        }
    }
}

impl Clone for OnRampWrite {
    fn clone(&self) -> (out: Self)
        ensures
            out@ == self@,
    {
        match self {
            OnRampWrite::Quote { record } => OnRampWrite::Quote { record: record.clone() },
            OnRampWrite::QuoteRemoved { quote_id } => OnRampWrite::QuoteRemoved {
                quote_id: quote_id.clone(),
            },
            OnRampWrite::SessionEvent { key, event } => OnRampWrite::SessionEvent {
                key: key.clone(),
                event: event.clone(),
            },
            OnRampWrite::SessionClosed { quote_id } => OnRampWrite::SessionClosed {
                quote_id: quote_id.clone(),
            },
            OnRampWrite::InputSeen { outpoint } => OnRampWrite::InputSeen {
                outpoint: outpoint.clone(),
            },
            OnRampWrite::UtxoLocked { outpoint, quote_id } => OnRampWrite::UtxoLocked {
                outpoint: outpoint.clone(),
                quote_id: quote_id.clone(),
            },
            OnRampWrite::UtxoUnlocked { outpoint } => OnRampWrite::UtxoUnlocked {
                outpoint: outpoint.clone(),
            },
            OnRampWrite::ScriptAdvertised { script_hex, context } =>
                OnRampWrite::ScriptAdvertised {
                    script_hex: script_hex.clone(),
                    context: context.clone(),
                },
        }
    }
}

/// What the database holds: six tables.
#[verifier::ext_equal]
pub struct OnRampState {
    /// Quote id to what is kept of the quote.
    pub quotes: Map<Seq<char>, QuoteRecord>,
    /// Numbered key to a payjoin session event.
    pub session_events: Map<Seq<char>, Seq<char>>,
    /// Quotes whose session is closed.
    pub session_closed: Set<Seq<char>>,
    /// Outpoints that a sender has ever shown.
    pub seen_inputs: Set<Seq<char>>,
    /// Outpoint of a coin of the mint to the quote whose board it is locked to.
    pub locked_utxos: Map<Seq<char>, Seq<char>>,
    /// Script in hex to what it was handed out for.
    pub advertised_scripts: Map<Seq<char>, Seq<char>>,
}

impl OnRampState {
    /// A database without rows.
    pub open spec fn empty() -> OnRampState {
        OnRampState {
            quotes: Map::empty(),
            session_events: Map::empty(),
            session_closed: Set::empty(),
            seen_inputs: Set::empty(),
            locked_utxos: Map::empty(),
            advertised_scripts: Map::empty(),
        }
    }

    /// The database after one change.
    pub open spec fn written(self, row: OnRampRow) -> OnRampState {
        match row {
            OnRampRow::Quote { record } => OnRampState {
                quotes: self.quotes.insert(record.quote_id, record),
                ..self
            },
            OnRampRow::QuoteRemoved { quote_id } => OnRampState {
                quotes: self.quotes.remove(quote_id),
                ..self
            },
            OnRampRow::SessionEvent { key, event } => OnRampState {
                session_events: self.session_events.insert(key, event),
                ..self
            },
            OnRampRow::SessionClosed { quote_id } => OnRampState {
                session_closed: self.session_closed.insert(quote_id),
                ..self
            },
            OnRampRow::InputSeen { outpoint } => OnRampState {
                seen_inputs: self.seen_inputs.insert(outpoint),
                ..self
            },
            OnRampRow::UtxoLocked { outpoint, quote_id } => OnRampState {
                locked_utxos: self.locked_utxos.insert(outpoint, quote_id),
                ..self
            },
            OnRampRow::UtxoUnlocked { outpoint } => OnRampState {
                locked_utxos: self.locked_utxos.remove(outpoint),
                ..self
            },
            OnRampRow::ScriptAdvertised { script_hex, context } => OnRampState {
                advertised_scripts: self.advertised_scripts.insert(script_hex, context),
                ..self
            },
        }
    }

    /// The database after several changes, one after the other.
    pub open spec fn all_written(self, rows: Seq<OnRampRow>) -> OnRampState
        decreases rows.len(),
    {
        if rows.len() == 0 {
            self
        } else {
            self.all_written(rows.drop_last()).written(rows.last())
        }
    }

    /// Every table is finite, so that its keys have an order, and every quote is kept under its own
    /// id.
    pub open spec fn is_sound(self) -> bool {
        &&& self.quotes.dom().finite()
        &&& self.session_events.dom().finite()
        &&& self.session_closed.finite()
        &&& self.seen_inputs.finite()
        &&& self.locked_utxos.dom().finite()
        &&& self.advertised_scripts.dom().finite()
        &&& forall|k: Seq<char>| #[trigger]
            self.quotes.dom().contains(k) ==> self.quotes[k].quote_id == k
    }
}

/// Whatever is changed in a database, its tables stay finite and its quotes under their own ids.
pub proof fn law_onramp_state_stays_sound(state: OnRampState, rows: Seq<OnRampRow>)
    requires
        state.is_sound(),
    ensures
        state.all_written(rows).is_sound(),
    decreases rows.len(),
{
    if rows.len() > 0 {
        law_onramp_state_stays_sound(state, rows.drop_last());
    }
}

/// The same holds of a store.
pub proof fn law_onramp_store_stays_sound(store: OnRampView, rows: Seq<OnRampRow>)
    requires
        store.state.is_sound(),
    ensures
        store.put_all(rows).state.is_sound(),
        store.put_all(rows).state == store.state.all_written(rows),
    decreases rows.len(),
{
    if rows.len() > 0 {
        law_onramp_store_stays_sound(store, rows.drop_last());
        law_onramp_state_stays_sound(store.state, rows);
    }
}

/// What each of several changes says.
pub open spec fn onramp_rows_view(ws: Seq<OnRampWrite>) -> Seq<OnRampRow> {
    ws.map_values(|w: OnRampWrite| w@)
}

/// The state of a store: the database as it was last committed, the tables in memory, and the
/// changes made since the commit.
#[verifier::ext_equal]
pub struct OnRampView {
    pub committed: OnRampState,
    pub state: OnRampState,
    pub pending: Seq<OnRampRow>,
}

impl OnRampView {
    /// The store after one change.
    pub open spec fn put(self, row: OnRampRow) -> OnRampView {
        OnRampView { state: self.state.written(row), pending: self.pending.push(row), ..self }
    }

    /// The store after several changes, one after the other.
    pub open spec fn put_all(self, rows: Seq<OnRampRow>) -> OnRampView
        decreases rows.len(),
    {
        if rows.len() == 0 {
            self
        } else {
            self.put_all(rows.drop_last()).put(rows.last())
        }
    }

    /// Making the pending changes in the committed database gives what memory holds.
    pub open spec fn replays(self) -> bool {
        self.state == self.committed.all_written(self.pending)
    }
}

/// Whatever is changed in a store, its pending changes keep turning the committed database into
/// what memory holds.
pub proof fn law_pending_changes_replay(store: OnRampView, rows: Seq<OnRampRow>)
    requires
        store.replays(),
    ensures
        store.put_all(rows).replays(),
        store.put_all(rows).committed == store.committed,
        store.put_all(rows).pending == store.pending + rows,
        store.put_all(rows).state == store.state.all_written(rows),
    decreases rows.len(),
{
    if rows.len() == 0 {
        assert(store.pending + rows =~= store.pending);
    } else {
        law_pending_changes_replay(store, rows.drop_last());
        let before = store.put_all(rows.drop_last());
        let after = before.put(rows.last());
        assert(after.pending.drop_last() =~= before.pending);
        assert(after.pending =~= store.pending + rows);
    }
}

/// The on-ramp state store.
pub struct OnRampStateStore {
    quotes: Table<OnRampQuoteRecord>,
    session_events: Table<String>,
    session_closed: Table<()>,
    seen_inputs: Table<()>,
    locked: Table<String>,
    advertised: Table<String>,
    pending: Vec<OnRampWrite>,
    committed: Ghost<OnRampState>,
}

impl View for OnRampStateStore {
    type V = OnRampView;

    closed spec fn view(&self) -> OnRampView {
        OnRampView {
            committed: self.committed@,
            state: OnRampState {
                quotes: self.quotes@,
                session_events: self.session_events@,
                session_closed: self.session_closed@.dom(),
                seen_inputs: self.seen_inputs@.dom(),
                locked_utxos: self.locked@,
                advertised_scripts: self.advertised@,
            },
            pending: onramp_rows_view(self.pending@),
        }
    }
}

proof fn lemma_rows_push(ws: Seq<OnRampWrite>, w: OnRampWrite)
    ensures
        onramp_rows_view(ws.push(w)) == onramp_rows_view(ws).push(w@),
{
    assert(onramp_rows_view(ws.push(w)) =~= onramp_rows_view(ws).push(w@));
}

/// What each of several quotes says.
pub open spec fn quotes_view(v: Seq<OnRampQuoteRecord>) -> Seq<QuoteRecord> {
    v.map_values(|r: OnRampQuoteRecord| r@)
}

/// The locks after some coins were locked to a quote.
pub open spec fn locks_added(
    locks: Map<Seq<char>, Seq<char>>,
    quote_id: Seq<char>,
    outpoints: Seq<Seq<char>>,
) -> Map<Seq<char>, Seq<char>> {
    locks.union_prefer_right(
        Map::new(|o: Seq<char>| outpoints.contains(o), |o: Seq<char>| quote_id),
    )
}

/// The locks after all those held by a quote were released.
pub open spec fn locks_released(locks: Map<Seq<char>, Seq<char>>, quote_id: Seq<char>) -> Map<
    Seq<char>,
    Seq<char>,
> {
    Map::new(
        |o: Seq<char>| locks.dom().contains(o) && locks[o] != quote_id,
        |o: Seq<char>| locks[o],
    )
}

/// The changes that lock some coins to a quote, one after the other.
pub open spec fn lock_rows(quote_id: Seq<char>, outpoints: Seq<Seq<char>>) -> Seq<OnRampRow> {
    outpoints.map_values(|o: Seq<char>| OnRampRow::UtxoLocked { outpoint: o, quote_id })
}

/// Making those changes adds the locks and changes nothing else.
pub proof fn lemma_lock_rows(store: OnRampView, quote_id: Seq<char>, outpoints: Seq<Seq<char>>)
    ensures
        store.put_all(lock_rows(quote_id, outpoints)).state == (OnRampState {
            locked_utxos: locks_added(store.state.locked_utxos, quote_id, outpoints),
            ..store.state
        }),
    decreases outpoints.len(),
{
    let rows = lock_rows(quote_id, outpoints);
    let after = store.put_all(rows).state;
    let added = locks_added(store.state.locked_utxos, quote_id, outpoints);
    if outpoints.len() == 0 {
        assert(after.locked_utxos =~= added);
    } else {
        let front = outpoints.drop_last();
        lemma_lock_rows(store, quote_id, front);
        assert(rows.drop_last() =~= lock_rows(quote_id, front));
        assert(rows.last() == OnRampRow::UtxoLocked { outpoint: outpoints.last(), quote_id });
        assert forall|o: Seq<char>| #[trigger]
            outpoints.contains(o) == (front.contains(o) || o == outpoints.last()) by {
            if outpoints.contains(o) {
                let j = choose|j: int| 0 <= j < outpoints.len() && outpoints[j] == o;
                if j < front.len() {
                    assert(front[j] == o);
                }
            }
            if front.contains(o) {
                let j = choose|j: int| 0 <= j < front.len() && front[j] == o;
                assert(outpoints[j] == o);
            }
            assert(outpoints[outpoints.len() - 1] == outpoints.last());
        }
        assert(after.locked_utxos =~= added);
    }
    assert(after =~= (OnRampState { locked_utxos: added, ..store.state }));
}

/// The changes that release all coins locked to a quote, in the order of their outpoints.
pub open spec fn unlock_rows(locks: Map<Seq<char>, Seq<char>>, quote_id: Seq<char>) -> Seq<
    OnRampRow,
> {
    key_order(locks).filter(|o: Seq<char>| locks[o] == quote_id).map_values(
        |o: Seq<char>| OnRampRow::UtxoUnlocked { outpoint: o },
    )
}

/// What is said when a script was handed out before.
pub open spec fn reuse_message(script_hex: Seq<char>) -> Seq<char> {
    "no-address-reuse violation: script "@ + script_hex + " was already advertised"@
}

impl OnRampStateStore {
    /// The store of a database in which the given changes have been made.
    pub fn open(rows: Vec<OnRampWrite>) -> (store: OnRampStateStore)
        ensures
            store@.state == OnRampState::empty().all_written(onramp_rows_view(rows@)),
            store@.committed == store@.state,
            store@.pending == Seq::<OnRampRow>::empty(),
            store@.replays(),
            store@.state.is_sound(),
    {
        let mut store = OnRampStateStore {
            quotes: Table::new(),
            session_events: Table::new(),
            session_closed: Table::new(),
            seen_inputs: Table::new(),
            locked: Table::new(),
            advertised: Table::new(),
            pending: Vec::new(),
            committed: Ghost(OnRampState::empty()),
        };
        proof {
            assert(store@.state =~= OnRampState::empty());
        }
        let ghost all = onramp_rows_view(rows@);
        let mut i: usize = 0;
        while i < rows.len()
            invariant
                all == onramp_rows_view(rows@),
                i <= rows@.len(),
                store@.state == OnRampState::empty().all_written(all.take(i as int)),
            decreases rows@.len() - i,
        {
            proof {
                assert(all.take(i + 1).drop_last() =~= all.take(i as int));
                assert(all.take(i + 1).last() == rows@[i as int]@);
            }
            store.write(rows[i].clone());
            i += 1;
        }
        proof {
            assert(all.take(i as int) =~= all);
        }
        store.pending = Vec::new();
        store.committed = Ghost(store@.state);
        proof {
            assert(store@.pending =~= Seq::<OnRampRow>::empty());
            law_onramp_state_stays_sound(OnRampState::empty(), all);
        }
        store
    }

    /// Takes the changes made since the last commit, to be committed.
    pub fn take_pending(&mut self) -> (rows: Vec<OnRampWrite>)
        ensures
            onramp_rows_view(rows@) == old(self)@.pending,
            final(self)@ == (OnRampView {
                committed: old(self)@.state,
                state: old(self)@.state,
                pending: Seq::empty(),
            }),
            final(self)@.replays(),
    {
        let mut rows: Vec<OnRampWrite> = Vec::new();
        std::mem::swap(&mut rows, &mut self.pending);
        self.committed = Ghost(self@.state);
        proof {
            assert(self@.pending =~= Seq::<OnRampRow>::empty());
        }
        rows
    }

    /// Makes one change.
    pub fn write(&mut self, row: OnRampWrite)
        ensures
            final(self)@ == old(self)@.put(row@),
    {
        match &row {
            OnRampWrite::Quote { record } => {
                self.quotes.insert(record.quote_id.clone(), record.clone());
            },
            OnRampWrite::QuoteRemoved { quote_id } => {
                self.quotes.remove(quote_id.as_str());
            },
            OnRampWrite::SessionEvent { key, event } => {
                self.session_events.insert(key.clone(), event.clone());
            },
            OnRampWrite::SessionClosed { quote_id } => {
                self.session_closed.insert(quote_id.clone(), ());
            },
            OnRampWrite::InputSeen { outpoint } => {
                self.seen_inputs.insert(outpoint.clone(), ());
            },
            OnRampWrite::UtxoLocked { outpoint, quote_id } => {
                self.locked.insert(outpoint.clone(), quote_id.clone());
            },
            OnRampWrite::UtxoUnlocked { outpoint } => {
                self.locked.remove(outpoint.as_str());
            },
            OnRampWrite::ScriptAdvertised { script_hex, context } => {
                self.advertised.insert(script_hex.clone(), context.clone());
            },
        }
        proof {
            lemma_rows_push(self.pending@, row);
        }
        self.pending.push(row);
        proof {
            assert(self@ =~= old(self)@.put(row@));
        }
    }

    /// Puts a quote under its id, in place of what was there.
    pub fn put_quote(&mut self, record: &OnRampQuoteRecord)
        ensures
            final(self)@ == old(self)@.put(OnRampRow::Quote { record: record@ }),
    {
        self.write(OnRampWrite::Quote { record: record.clone() });
    }

    /// What is kept of a quote.
    pub fn get_quote(&self, quote_id: &str) -> (record: Option<OnRampQuoteRecord>)
        ensures
            match record {
                Some(r) => self@.state.quotes.dom().contains(quote_id@)
                    && r@ == self@.state.quotes[quote_id@],
                None => !self@.state.quotes.dom().contains(quote_id@),
            },
    {
        match self.quotes.get(quote_id) {
            Some(r) => Some(r.clone()),
            None => None,
        }
    }

    /// All quotes, in the order of their ids.
    pub fn all_quotes(&self) -> (records: Vec<OnRampQuoteRecord>)
        ensures
            quotes_view(records@) == values_of(self@.state.quotes),
    {
        let mut out: Vec<OnRampQuoteRecord> = Vec::new();
        let n: usize = self.quotes.len();
        let ghost all = values_of(self@.state.quotes);
        let mut i: usize = 0;
        while i < n
            invariant
                n == key_order(self.quotes@).len(),
                all == values_of(self.quotes@),
                i <= n,
                quotes_view(out@) == all.take(i as int),
            decreases n - i,
        {
            let ghost before = quotes_view(out@);
            out.push(self.quotes.value_at(i).clone());
            proof {
                assert(quotes_view(out@) =~= before.push(all[i as int]));
                assert(all.take(i + 1) =~= all.take(i as int).push(all[i as int]));
            }
            i += 1;
        }
        proof {
            assert(all.take(i as int) =~= all);
        }
        out
    }

    /// Takes a quote out of the set that is polled. Its session log stays.
    pub fn remove_quote(&mut self, quote_id: &str)
        ensures
            final(self)@ == old(self)@.put(OnRampRow::QuoteRemoved { quote_id: quote_id@ }),
    {
        self.write(OnRampWrite::QuoteRemoved { quote_id: quote_id.to_owned() });
    }

    /// Notes that a sender has shown an input.
    pub fn mark_input_seen(&mut self, outpoint: &str)
        ensures
            final(self)@ == old(self)@.put(OnRampRow::InputSeen { outpoint: outpoint@ }),
    {
        self.write(OnRampWrite::InputSeen { outpoint: outpoint.to_owned() });
    }

    /// Whether a sender has shown an input before.
    pub fn is_input_seen(&self, outpoint: &str) -> (r: bool)
        ensures
            r == self@.state.seen_inputs.contains(outpoint@),
    {
        self.seen_inputs.contains(outpoint)
    }

    // ---- coins locked to boards -------------------------------------------------------------

    /// The coins of the mint that are locked to boards, with the quotes they are locked to.
    pub fn locked_utxos(&self) -> (locks: &Table<String>)
        ensures
            locks@ == self@.state.locked_utxos,
    {
        &self.locked
    }

    /// Locks coins to a quote.
    pub fn lock_utxos(&mut self, quote_id: &str, outpoints: &Vec<String>)
        ensures
            final(self)@ == old(self)@.put_all(lock_rows(quote_id@, texts(outpoints@))),
            final(self)@.state == (OnRampState {
                locked_utxos: locks_added(
                    old(self)@.state.locked_utxos,
                    quote_id@,
                    texts(outpoints@),
                ),
                ..old(self)@.state
            }),
    {
        let ghost start = self@;
        let ghost all = texts(outpoints@);
        let ghost rows = lock_rows(quote_id@, all);
        let mut i: usize = 0;
        while i < outpoints.len()
            invariant
                all == texts(outpoints@),
                rows == lock_rows(quote_id@, all),
                i <= outpoints@.len(),
                self@ == start.put_all(rows.take(i as int)),
            decreases outpoints@.len() - i,
        {
            self.write(
                OnRampWrite::UtxoLocked {
                    outpoint: outpoints[i].clone(),
                    quote_id: quote_id.to_owned(),
                },
            );
            proof {
                assert(rows[i as int] == OnRampRow::UtxoLocked {
                    outpoint: all[i as int],
                    quote_id: quote_id@,
                });
                assert(rows.take(i + 1).drop_last() =~= rows.take(i as int));
                assert(rows.take(i + 1).last() == rows[i as int]);
            }
            i += 1;
        }
        proof {
            assert(rows.take(i as int) =~= rows);
            lemma_lock_rows(start, quote_id@, all);
        }
    }

    /// Releases all coins locked to a quote.
    pub fn unlock_utxos_for_quote(&mut self, quote_id: &str)
        ensures
            final(self)@ == old(self)@.put_all(
                unlock_rows(old(self)@.state.locked_utxos, quote_id@),
            ),
            final(self)@.state == (OnRampState {
                locked_utxos: locks_released(old(self)@.state.locked_utxos, quote_id@),
                ..old(self)@.state
            }),
    {
        let ghost start = self@;
        let ghost locks = self@.state.locked_utxos;
        let ghost keys = key_order(locks);
        let ghost held = |o: Seq<char>| locks[o] == quote_id@;
        let n: usize = self.locked.len();
        let mut to_release: Vec<String> = Vec::new();
        let mut i: usize = 0;
        while i < n
            invariant
                self@ == start,
                locks == self.locked@,
                keys == key_order(locks),
                n == keys.len(),
                held == (|o: Seq<char>| locks[o] == quote_id@),
                i <= n,
                texts(to_release@) == keys.take(i as int).filter(held),
            decreases n - i,
        {
            let ghost before = texts(to_release@);
            proof {
                lemma_filter_next(keys, held, i as int);
            }
            if str_eq(self.locked.value_at(i).as_str(), quote_id) {
                to_release.push(self.locked.key_at(i).clone());
                proof {
                    assert(texts(to_release@) =~= before.push(keys[i as int]));
                }
            }
            i += 1;
        }
        proof {
            assert(keys.take(i as int) =~= keys);
        }
        let ghost released = texts(to_release@);
        let ghost rows = unlock_rows(locks, quote_id@);
        proof {
            assert(rows == released.map_values(
                |o: Seq<char>| OnRampRow::UtxoUnlocked { outpoint: o },
            ));
            assert(rows.take(0) =~= Seq::<OnRampRow>::empty());
        }
        let mut j: usize = 0;
        while j < to_release.len()
            invariant
                released == texts(to_release@),
                rows == released.map_values(|o: Seq<char>| OnRampRow::UtxoUnlocked { outpoint: o }),
                j <= to_release@.len(),
                self@ == start.put_all(rows.take(j as int)),
                self@.state == (OnRampState {
                    locked_utxos: self@.state.locked_utxos,
                    ..start.state
                }),
                forall|o: Seq<char>| #[trigger]
                    self@.state.locked_utxos.dom().contains(o) <==> start.state.locked_utxos.dom().contains(o)
                        && !released.take(j as int).contains(o),
                forall|o: Seq<char>| #[trigger]
                    self@.state.locked_utxos.dom().contains(o) ==> self@.state.locked_utxos[o]
                        == start.state.locked_utxos[o],
            decreases to_release@.len() - j,
        {
            let ghost before = self@;
            self.write(OnRampWrite::UtxoUnlocked { outpoint: to_release[j].clone() });
            proof {
                let row = rows[j as int];
                assert(row == OnRampRow::UtxoUnlocked { outpoint: released[j as int] });
                assert(rows.take(j + 1).drop_last() =~= rows.take(j as int));
                assert(rows.take(j + 1).last() == row);
                assert forall|o: Seq<char>| #[trigger]
                    self@.state.locked_utxos.dom().contains(o) <==> start.state.locked_utxos.dom().contains(o)
                        && !released.take(j + 1).contains(o) by {
                    let front = released.take(j as int);
                    let longer = released.take(j + 1);
                    if longer.contains(o) {
                        let x = choose|x: int| 0 <= x < longer.len() && longer[x] == o;
                        if x < j {
                            assert(front[x] == o);
                        }
                    }
                    if front.contains(o) {
                        let x = choose|x: int| 0 <= x < front.len() && front[x] == o;
                        assert(longer[x] == o);
                    }
                    assert(longer[j as int] == released[j as int]);
                }
            }
            j += 1;
        }
        proof {
            assert(rows.take(j as int) =~= rows);
            assert(released.take(j as int) =~= released);
            let left = locks_released(locks, quote_id@);
            assert forall|o: Seq<char>|
                locks.dom().contains(o) implies released.contains(o) == (locks[o] == quote_id@) by {
                lemma_filter_holds(keys, held, o);
            }
            assert(self@.state.locked_utxos =~= left);
        }
    }

    // ---- scripts are handed out once --------------------------------------------------------

    /// Whether a script was handed out before.
    pub fn is_script_advertised(&self, script_hex: &str) -> (r: bool)
        ensures
            r == self@.state.advertised_scripts.dom().contains(script_hex@),
    {
        self.advertised.contains(script_hex)
    }

    /// Notes that a script is handed out, and refuses if it was handed out before.
    pub fn record_advertised_script(&mut self, script_hex: &str, context: &str) -> (r: Result<
        (),
        StorageError,
    >)
        ensures
            match r {
                Ok(_) => !old(self)@.state.advertised_scripts.dom().contains(script_hex@)
                    && final(self)@ == old(self)@.put(
                    OnRampRow::ScriptAdvertised { script_hex: script_hex@, context: context@ },
                ),
                Err(e) => old(self)@.state.advertised_scripts.dom().contains(script_hex@)
                    && final(self)@ == old(self)@ && e.0@ == reuse_message(script_hex@),
            },
    {
        if self.is_script_advertised(script_hex) {
            return Err(
                StorageError(
                    cat3(
                        "no-address-reuse violation: script ",
                        script_hex,
                        " was already advertised",
                    ),
                ),
            );
        }
        self.write(
            OnRampWrite::ScriptAdvertised {
                script_hex: script_hex.to_owned(),
                context: context.to_owned(),
            },
        );
        Ok(())
    }

    // ---- session logs -----------------------------------------------------------------------

    /// Access to the session log of one quote.
    pub fn session_persister(&self, quote_id: &str) -> (persister: QuoteSessionPersister)
        ensures
            persister@ == quote_id@,
    {
        QuoteSessionPersister { quote_id: quote_id.to_owned() }
    }

    /// Whether the session log of a quote holds an event.
    pub fn session_exists(&self, quote_id: &str) -> (r: bool)
        ensures
            r == (log_keys(self@.state.session_events, quote_id@).len() > 0),
    {
        let persister = self.session_persister(quote_id);
        persister.next_seq(self) > 0
    }
}

/// Access to the session log of one quote.
pub struct QuoteSessionPersister {
    quote_id: String,
}

impl View for QuoteSessionPersister {
    type V = Seq<char>;

    closed spec fn view(&self) -> Seq<char> {
        self.quote_id@
    }
}

impl QuoteSessionPersister {
    /// Whether a key is that of an event of this log.
    fn owns(&self, key: &str) -> (r: bool)
        ensures
            r == is_event_key(key@, self@),
    {
        let prefix = cat2(self.quote_id.as_str(), ":");
        if !starts_with(key, prefix.as_str()) {
            return false;
        }
        let chars = chars_of(key);
        let from: usize = prefix.as_str().unicode_len();
        let ghost number = key@.skip(from as int);
        if from == chars.len() {
            return false;
        }
        let mut i: usize = from;
        while i < chars.len()
            invariant
                chars@ == key@,
                number == key@.skip(from as int),
                from <= i <= chars@.len(),
                forall|j: int| 0 <= j < i - from ==> '0' <= #[trigger] number[j] <= '9',
                from == log_prefix(self@).len(),
                begins_with(key@, log_prefix(self@)),
            decreases chars@.len() - i,
        {
            if chars[i] < '0' || chars[i] > '9' {
                proof {
                    assert(number[i - from] == chars@[i as int]);
                }
                return false;
            }
            i += 1;
        }
        proof {
            assert(is_number(number));
        }
        true
    }

    /// The number of the next event: how many there are.
    pub fn next_seq(&self, store: &OnRampStateStore) -> (seq: u64)
        ensures
            seq == log_keys(store@.state.session_events, self@).len(),
    {
        let n: usize = store.session_events.len();
        let ghost keys = key_order(store@.state.session_events);
        let ghost ours = |k: Seq<char>| is_event_key(k, self@);
        let mut count: u64 = 0;
        let mut i: usize = 0;
        while i < n
            invariant
                keys == key_order(store.session_events@),
                n == keys.len(),
                ours == (|k: Seq<char>| is_event_key(k, self@)),
                i <= n,
                count == keys.take(i as int).filter(ours).len(),
                count <= i,
            decreases n - i,
        {
            proof {
                lemma_filter_next(keys, ours, i as int);
            }
            if self.owns(store.session_events.key_at(i).as_str()) {
                count += 1;
            }
            i += 1;
        }
        proof {
            assert(keys.take(i as int) =~= keys);
        }
        count
    }

    /// Appends an event to the log.
    pub fn save_event(&self, store: &mut OnRampStateStore, event: &str)
        ensures
            final(store)@ == old(store)@.put(
                OnRampRow::SessionEvent {
                    key: event_key(
                        self@,
                        log_keys(old(store)@.state.session_events, self@).len(),
                    ),
                    event: event@,
                },
            ),
    {
        let seq: u64 = self.next_seq(store);
        let number = pad_zeros(u64_text(seq).as_str(), 12);
        let key = cat3(self.quote_id.as_str(), ":", number.as_str());
        store.write(OnRampWrite::SessionEvent { key, event: event.to_owned() });
    }

    /// The events of the log, in the order of their keys.
    pub fn load(&self, store: &OnRampStateStore) -> (events: Vec<String>)
        ensures
            texts(events@) == log_events(store@.state.session_events, self@),
    {
        let n: usize = store.session_events.len();
        let ghost m = store@.state.session_events;
        let ghost keys = key_order(m);
        let ghost ours = |k: Seq<char>| is_event_key(k, self@);
        let ghost value = |k: Seq<char>| m[k];
        let mut out: Vec<String> = Vec::new();
        proof {
            assert(keys.take(0).filter(ours) =~= Seq::<Seq<char>>::empty()) by {
                reveal(Seq::filter);
            }
            assert(texts(out@) =~= keys.take(0).filter(ours).map_values(value));
        }
        let mut i: usize = 0;
        while i < n
            invariant
                m == store.session_events@,
                keys == key_order(m),
                n == keys.len(),
                ours == (|k: Seq<char>| is_event_key(k, self@)),
                value == (|k: Seq<char>| m[k]),
                i <= n,
                texts(out@) == keys.take(i as int).filter(ours).map_values(value),
            decreases n - i,
        {
            let ghost before = texts(out@);
            proof {
                lemma_filter_next(keys, ours, i as int);
            }
            if self.owns(store.session_events.key_at(i).as_str()) {
                out.push(store.session_events.value_at(i).clone());
                proof {
                    assert(texts(out@) =~= before.push(m[keys[i as int]]));
                    assert(keys.take(i + 1).filter(ours).map_values(value) =~= keys.take(
                        i as int,
                    ).filter(ours).map_values(value).push(m[keys[i as int]]));
                }
            }
            i += 1;
        }
        proof {
            assert(keys.take(i as int) =~= keys);
        }
        out
    }

    /// Notes that the session is closed.
    pub fn close(&self, store: &mut OnRampStateStore)
        ensures
            final(store)@ == old(store)@.put(OnRampRow::SessionClosed { quote_id: self@ }),
    {
        store.write(OnRampWrite::SessionClosed { quote_id: self.quote_id.clone() });
    }
}

/// A quote is read back as it was put, and the others are as they were.
pub proof fn law_quote_reads_back(store: OnRampView, record: QuoteRecord, other: Seq<char>)
    requires
        other != record.quote_id,
    ensures
        ({
            let quotes = store.put(OnRampRow::Quote { record }).state.quotes;
            &&& quotes.dom().contains(record.quote_id) && quotes[record.quote_id] == record
            &&& quotes.dom().contains(other) == store.state.quotes.dom().contains(other)
            &&& quotes.dom().contains(other) ==> quotes[other] == store.state.quotes[other]
        }),
{
}

/// An input that a sender has shown stays known, whatever is changed.
pub proof fn law_seen_inputs_stay(store: OnRampView, outpoint: Seq<char>, row: OnRampRow)
    requires
        store.state.seen_inputs.contains(outpoint),
    ensures
        store.put(row).state.seen_inputs.contains(outpoint),
{
}

/// Releasing the coins of a quote undoes locking them, where they were free before and the quote
/// held none.
pub proof fn law_unlock_undoes_lock(
    locks: Map<Seq<char>, Seq<char>>,
    quote_id: Seq<char>,
    outpoints: Seq<Seq<char>>,
)
    requires
        forall|o: Seq<char>| #[trigger] outpoints.contains(o) ==> !locks.dom().contains(o),
        forall|o: Seq<char>| #[trigger] locks.dom().contains(o) ==> locks[o] != quote_id,
    ensures
        locks_released(locks_added(locks, quote_id, outpoints), quote_id) == locks,
{
    assert(locks_released(locks_added(locks, quote_id, outpoints), quote_id) =~= locks);
}

/// A change that is made is read back: what was put under a key is there, what was removed is not,
/// and what is held under any other key is as it was.
pub proof fn law_change_reads_back(state: OnRampState, row: OnRampRow, k: Seq<char>)
    ensures
        ({
            let after = state.written(row);
            match row {
                OnRampRow::Quote { record } => {
                    &&& after.quotes.dom().contains(record.quote_id)
                        && after.quotes[record.quote_id] == record
                    &&& k != record.quote_id ==> after.quotes.dom().contains(k)
                        == state.quotes.dom().contains(k) && after.quotes[k] == state.quotes[k]
                },
                OnRampRow::QuoteRemoved { quote_id } => {
                    &&& after.quotes.dom().contains(k) <==> k != quote_id
                        && state.quotes.dom().contains(k)
                    &&& after.quotes.dom().contains(k) ==> after.quotes[k] == state.quotes[k]
                },
                OnRampRow::SessionEvent { key, event } => {
                    &&& after.session_events.dom().contains(key) && after.session_events[key]
                        == event
                    &&& k != key ==> after.session_events.dom().contains(k)
                        == state.session_events.dom().contains(k) && after.session_events[k]
                        == state.session_events[k]
                },
                OnRampRow::SessionClosed { quote_id } => after.session_closed.contains(k) <==> k
                    == quote_id || state.session_closed.contains(k),
                OnRampRow::InputSeen { outpoint } => after.seen_inputs.contains(k) <==> k
                    == outpoint || state.seen_inputs.contains(k),
                OnRampRow::UtxoLocked { outpoint, quote_id } => {
                    &&& after.locked_utxos.dom().contains(outpoint) && after.locked_utxos[outpoint]
                        == quote_id
                    &&& k != outpoint ==> after.locked_utxos.dom().contains(k)
                        == state.locked_utxos.dom().contains(k) && after.locked_utxos[k]
                        == state.locked_utxos[k]
                },
                OnRampRow::UtxoUnlocked { outpoint } => {
                    &&& after.locked_utxos.dom().contains(k) <==> k != outpoint
                        && state.locked_utxos.dom().contains(k)
                    &&& after.locked_utxos.dom().contains(k) ==> after.locked_utxos[k]
                        == state.locked_utxos[k]
                },
                OnRampRow::ScriptAdvertised { script_hex, context } => {
                    &&& after.advertised_scripts.dom().contains(script_hex)
                        && after.advertised_scripts[script_hex] == context
                    &&& k != script_hex ==> after.advertised_scripts.dom().contains(k)
                        == state.advertised_scripts.dom().contains(k) && after.advertised_scripts[k]
                        == state.advertised_scripts[k]
                },
            }
        }),
{
}

/// A change that is made touches its own table and no other.
pub proof fn law_other_onramp_tables_stay(state: OnRampState, row: OnRampRow)
    ensures
        !(row is Quote) && !(row is QuoteRemoved) ==> state.written(row).quotes == state.quotes,
        !(row is SessionEvent) ==> state.written(row).session_events == state.session_events,
        !(row is SessionClosed) ==> state.written(row).session_closed == state.session_closed,
        !(row is InputSeen) ==> state.written(row).seen_inputs == state.seen_inputs,
        !(row is UtxoLocked) && !(row is UtxoUnlocked) ==> state.written(row).locked_utxos
            == state.locked_utxos,
        !(row is ScriptAdvertised) ==> state.written(row).advertised_scripts
            == state.advertised_scripts,
{
}

/// Changes that are made one after the other: no change changes nothing, and making one list of
/// them and then another is making both.
pub proof fn law_changes_are_made_in_turn(
    state: OnRampState,
    one: Seq<OnRampRow>,
    two: Seq<OnRampRow>,
)
    ensures
        state.all_written(Seq::empty()) == state,
        state.all_written(one + two) == state.all_written(one).all_written(two),
    decreases two.len(),
{
    if two.len() == 0 {
        assert(one + two =~= one);
    } else {
        law_changes_are_made_in_turn(state, one, two.drop_last());
        assert((one + two).drop_last() =~= one + two.drop_last());
        assert((one + two).last() == two.last());
    }
}

/// Locking coins to a quote locks each of them to it, and leaves the other locks as they are.
pub proof fn law_coins_are_locked_to_the_quote(
    store: OnRampView,
    quote_id: Seq<char>,
    outpoints: Seq<Seq<char>>,
    o: Seq<char>,
)
    ensures
        ({
            let before = store.state.locked_utxos;
            let after = store.put_all(lock_rows(quote_id, outpoints)).state;
            &&& after == (OnRampState { locked_utxos: after.locked_utxos, ..store.state })
            &&& outpoints.contains(o) ==> after.locked_utxos.dom().contains(o)
                && after.locked_utxos[o] == quote_id
            &&& !outpoints.contains(o) ==> after.locked_utxos.dom().contains(o)
                == before.dom().contains(o) && (before.dom().contains(o) ==> after.locked_utxos[o]
                == before[o])
        }),
{
    lemma_lock_rows(store, quote_id, outpoints);
}

/// Releasing the coins of a quote releases those locked to it, and no coin that another quote holds.
pub proof fn law_only_own_coins_are_released(
    locks: Map<Seq<char>, Seq<char>>,
    quote_id: Seq<char>,
    o: Seq<char>,
)
    ensures
        locks_released(locks, quote_id).dom().contains(o) <==> locks.dom().contains(o) && locks[o]
            != quote_id,
        locks_released(locks, quote_id).dom().contains(o) ==> locks_released(locks, quote_id)[o]
            == locks[o],
        locks_added(locks, quote_id, seq![o]).dom().contains(o) && locks_added(
            locks,
            quote_id,
            seq![o],
        )[o] == quote_id,
{
    assert(seq![o][0] == o);
    assert(seq![o].contains(o));
}

/// The changes that release the coins of a quote release exactly those locked to it.
pub proof fn law_unlocks_are_of_the_quote(
    locks: Map<Seq<char>, Seq<char>>,
    quote_id: Seq<char>,
    o: Seq<char>,
)
    requires
        locks.dom().finite(),
    ensures
        unlock_rows(locks, quote_id).contains(OnRampRow::UtxoUnlocked { outpoint: o })
            <==> locks.dom().contains(o) && locks[o] == quote_id,
        forall|i: int|
            0 <= i < unlock_rows(locks, quote_id).len() ==> (#[trigger] unlock_rows(
                locks,
                quote_id,
            )[i]) is UtxoUnlocked,
{
    let keys = key_order(locks);
    let rows = unlock_rows(locks, quote_id);
    lemma_key_order(locks);
    assert forall|p: spec_fn(Seq<char>) -> bool, g: spec_fn(Seq<char>) -> OnRampRow|
        {
            let r = #[trigger] keys.filter(p).map_values(g);
            &&& forall|x: Seq<char>| #[trigger] keys.contains(x) && p(x) ==> r.contains(g(x))
            &&& forall|i: int|
                0 <= i < r.len() ==> comes_from(keys, p, g, #[trigger] r[i])
        } by {
        lemma_mapped_filter(keys, p, g);
    }
    if rows.contains(OnRampRow::UtxoUnlocked { outpoint: o }) {
        let i = choose|i: int|
            0 <= i < rows.len() && rows[i] == (OnRampRow::UtxoUnlocked { outpoint: o });
        assert(rows[i] == (OnRampRow::UtxoUnlocked { outpoint: o }));
    }
    if locks.dom().contains(o) {
        assert(keys.contains(o));
    }
}

spec fn comes_from<A, B>(s: Seq<A>, p: spec_fn(A) -> bool, g: spec_fn(A) -> B, y: B) -> bool {
    exists|x: A| #[trigger] s.contains(x) && p(x) && y == g(x)
}

proof fn lemma_mapped_filter<A, B>(s: Seq<A>, p: spec_fn(A) -> bool, g: spec_fn(A) -> B)
    ensures
        forall|x: A| #[trigger] s.contains(x) && p(x) ==> s.filter(p).map_values(g).contains(g(x)),
        forall|i: int|
            0 <= i < s.filter(p).map_values(g).len() ==> comes_from(
                s,
                p,
                g,
                #[trigger] s.filter(p).map_values(g)[i],
            ),
{
    let f = s.filter(p);
    let r = f.map_values(g);
    assert forall|x: A| #[trigger] s.contains(x) && p(x) implies r.contains(g(x)) by {
        lemma_filter_holds(s, p, x);
        let i = choose|i: int| 0 <= i < f.len() && f[i] == x;
        assert(r[i] == g(x));
    }
    assert forall|i: int| 0 <= i < r.len() implies comes_from(s, p, g, #[trigger] r[i]) by {
        lemma_filter_holds(s, p, f[i]);
        assert(f.contains(f[i]));
        assert(s.contains(f[i]));
    }
}

/// What an [`OnRampQuoteRecord`] says is what its fields hold, each under its own name.
pub proof fn law_on_ramp_quote_record_says_what_it_holds(x: OnRampQuoteRecord)
    ensures
        x@.quote_id == x.quote_id@,
        x@.keypair_index == x.keypair_index,
        x@.expiry_height == x.expiry_height,
        x@.board_script_hex == x.board_script_hex@,
        x@.board_address == x.board_address@,
        x@.bip21_uri == x.bip21_uri@,
{
}

/// What an [`OnRampWrite`] says is of its own kind, with what its fields hold.
pub proof fn law_on_ramp_write_says_what_it_holds(x: OnRampWrite)
    ensures
        x is Quote <==> x@ is Quote,
        x matches OnRampWrite::Quote { record } ==> {
            &&& x@ matches OnRampRow::Quote { record: said_record }
            &&& said_record == record@
        },
        x is QuoteRemoved <==> x@ is QuoteRemoved,
        x matches OnRampWrite::QuoteRemoved { quote_id } ==> {
            &&& x@ matches OnRampRow::QuoteRemoved { quote_id: said_quote_id }
            &&& said_quote_id == quote_id@
        },
        x is SessionEvent <==> x@ is SessionEvent,
        x matches OnRampWrite::SessionEvent { key, event } ==> {
            &&& x@ matches OnRampRow::SessionEvent { key: said_key, event: said_event }
            &&& said_key == key@
            &&& said_event == event@
        },
        x is SessionClosed <==> x@ is SessionClosed,
        x matches OnRampWrite::SessionClosed { quote_id } ==> {
            &&& x@ matches OnRampRow::SessionClosed { quote_id: said_quote_id }
            &&& said_quote_id == quote_id@
        },
        x is InputSeen <==> x@ is InputSeen,
        x matches OnRampWrite::InputSeen { outpoint } ==> {
            &&& x@ matches OnRampRow::InputSeen { outpoint: said_outpoint }
            &&& said_outpoint == outpoint@
        },
        x is UtxoLocked <==> x@ is UtxoLocked,
        x matches OnRampWrite::UtxoLocked { outpoint, quote_id } ==> {
            &&& x@ matches OnRampRow::UtxoLocked {
                outpoint: said_outpoint,
                quote_id: said_quote_id,
            }
            &&& said_outpoint == outpoint@
            &&& said_quote_id == quote_id@
        },
        x is UtxoUnlocked <==> x@ is UtxoUnlocked,
        x matches OnRampWrite::UtxoUnlocked { outpoint } ==> {
            &&& x@ matches OnRampRow::UtxoUnlocked { outpoint: said_outpoint }
            &&& said_outpoint == outpoint@
        },
        x is ScriptAdvertised <==> x@ is ScriptAdvertised,
        x matches OnRampWrite::ScriptAdvertised { script_hex, context } ==> {
            &&& x@ matches OnRampRow::ScriptAdvertised {
                script_hex: said_script_hex,
                context: said_context,
            }
            &&& said_script_hex == script_hex@
            &&& said_context == context@
        },
{
}

/// Several changes are said each in its place.
pub proof fn law_changes_are_said_in_order(ws: Seq<OnRampWrite>, i: int)
    requires
        0 <= i < ws.len(),
    ensures
        onramp_rows_view(ws).len() == ws.len(),
        onramp_rows_view(ws)[i] == ws[i]@,
{
}

/// Several quotes are said each in its place.
pub proof fn law_quotes_are_said_in_order(v: Seq<OnRampQuoteRecord>, i: int)
    requires
        0 <= i < v.len(),
    ensures
        quotes_view(v).len() == v.len(),
        quotes_view(v)[i] == v[i]@,
{
}

} // verus!
