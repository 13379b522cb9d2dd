//! The coins that the mint adds to a board, and the locks that keep two boards from adding the
//! same coin.

use crate::adapters::{
    outpoint_parsed, p2tr_input_pair, p2tr_pair, p2wpkh_input_pair, p2wpkh_pair,
};
use crate::outputs::{is_p2tr, is_p2wpkh, script_is_p2tr, script_is_p2wpkh};
use crate::payjoin_receiver::{PayjoinReceiver, ReceiverView};
use crate::payjoin_state::{
    lemma_lock_rows, lock_rows, locks_added, locks_released, unlock_rows, OnRampState,
};
use crate::seqs::{lemma_filter_holds, lemma_filter_next};
use crate::text::texts;
use vstd::prelude::*;

verus! {

/// A coin of the mint's on-chain wallet.
pub struct MintUtxo {
    pub outpoint: String,
    pub script: Vec<u8>,
    pub value_sat: u64,
    pub is_spent: bool,
}

/// What a [`MintUtxo`] says.
pub struct Utxo {
    pub outpoint: Seq<char>,
    pub script: Seq<u8>,
    pub value_sat: u64,
    pub is_spent: bool,
}

impl View for MintUtxo {
    type V = Utxo;

    open spec fn view(&self) -> Utxo {
        Utxo {
            outpoint: self.outpoint@,
            script: self.script@,
            value_sat: self.value_sat,
            is_spent: self.is_spent,
        }
    }
}

/// A coin ready to be added to a board. Its view is its outpoint.
pub struct MintInput {
    pub pair: payjoin::receive::InputPair,
    pub outpoint: String,
}

impl View for MintInput {
    type V = Seq<char>;

    open spec fn view(&self) -> Seq<char> {
        self.outpoint@
    }
}

/// What each of several coins says.
pub open spec fn utxos_view(v: Seq<MintUtxo>) -> Seq<Utxo> {
    v.map_values(|u: MintUtxo| u@)
}

/// The outpoints of coins that are ready to be added.
pub open spec fn inputs_view(v: Seq<MintInput>) -> Seq<Seq<char>> {
    v.map_values(|i: MintInput| i@)
}

/// The outpoints of coins that are ready to be added, each with what is handed to the protocol.
pub open spec fn prepared(v: Seq<MintInput>) -> Seq<(Seq<char>, payjoin::receive::InputPair)> {
    v.map_values(|i: MintInput| (i.outpoint@, i.pair))
}

/// A coin made ready to be added: its outpoint, and the input that spends it by its kind of
/// script.
pub open spec fn prepared_coin(u: Utxo) -> (Seq<char>, payjoin::receive::InputPair) {
    if is_p2tr(u.script) {
        (u.outpoint, p2tr_pair(u.script, u.value_sat, u.outpoint))
    } else {
        (u.outpoint, p2wpkh_pair(u.script, u.value_sat, u.outpoint))
    }
}

/// Whether a coin is of a kind that can be added: taproot, or else a witness public key hash.
pub open spec fn can_contribute(u: Utxo) -> bool {
    (is_p2tr(u.script) || is_p2wpkh(u.script)) && outpoint_parsed(u.outpoint) is Ok
}

/// Whether a coin may be added to a board: unspent, in no use, and of a kind that can be added.
pub open spec fn is_candidate(receiver: ReceiverView, u: Utxo) -> bool {
    &&& !u.is_spent
    &&& !receiver.locked.contains(u.outpoint)
    &&& !receiver.onramp.state.locked_utxos.dom().contains(u.outpoint)
    &&& can_contribute(u)
}

/// The outpoints of the coins that may be added to a board, in the order of the wallet.
pub open spec fn candidates(receiver: ReceiverView, utxos: Seq<Utxo>) -> Seq<Seq<char>> {
    utxos.filter(|u: Utxo| is_candidate(receiver, u)).map_values(|u: Utxo| u.outpoint)
}

/// The coins to add, out of the candidates: the one chosen for privacy, then the others in order,
/// up to the configured count.
pub open spec fn selection<A>(candidates: Seq<A>, chosen: Option<usize>, count: u32) -> Seq<A> {
    let at: int = match chosen {
        Some(c) => if c < candidates.len() {
            c as int
        } else {
            0
        },
        None => 0,
    };
    let ordered = seq![candidates[at]] + candidates.take(at) + candidates.skip(at + 1);
    if candidates.len() == 0 {
        Seq::empty()
    } else if ordered.len() <= count {
        ordered
    } else {
        ordered.take(count as int)
    }
}

/// The receiver after coins were locked to a quote, in memory and durably.
pub open spec fn locked_to(
    receiver: ReceiverView,
    quote_id: Seq<char>,
    outpoints: Seq<Seq<char>>,
) -> ReceiverView {
    ReceiverView {
        locked: receiver.locked.union(Set::new(|o: Seq<char>| outpoints.contains(o))),
        onramp: receiver.onramp.put_all(lock_rows(quote_id, outpoints)),
        ..receiver
    }
}

/// The receiver after coins were released from a quote, in memory and durably.
pub open spec fn released_from(
    receiver: ReceiverView,
    quote_id: Seq<char>,
    outpoints: Seq<Seq<char>>,
) -> ReceiverView {
    ReceiverView {
        locked: receiver.locked.difference(Set::new(|o: Seq<char>| outpoints.contains(o))),
        onramp: receiver.onramp.put_all(
            unlock_rows(receiver.onramp.state.locked_utxos, quote_id),
        ),
        ..receiver
    }
}

/// Prepares a coin to be added to a board, if it is of a kind that can be.
pub fn build_input_pair(utxo: &MintUtxo) -> (input: Option<MintInput>)
    ensures
        match input {
            Some(i) => can_contribute(utxo@) && (i.outpoint@, i.pair) == prepared_coin(utxo@),
            None => !can_contribute(utxo@),
        },
{
    let built = if script_is_p2tr(&utxo.script) {
        p2tr_input_pair(&utxo.script, utxo.value_sat, utxo.outpoint.as_str())
    } else if script_is_p2wpkh(&utxo.script) {
        p2wpkh_input_pair(&utxo.script, utxo.value_sat, utxo.outpoint.as_str())
    } else {
        return None;
    };
    match built {
        Ok(pair) => Some(MintInput { pair, outpoint: utxo.outpoint.clone() }),
        Err(_) => None,
    }
}

impl PayjoinReceiver {
    /// The coins of the wallet that may be added to a board.
    pub fn mint_candidates(&self, utxos: &Vec<MintUtxo>) -> (out: Vec<MintInput>)
        ensures
            prepared(out@) == utxos_view(utxos@).filter(
                |u: Utxo| is_candidate(self@, u),
            ).map_values(|u: Utxo| prepared_coin(u)),
            inputs_view(out@) == candidates(self@, utxos_view(utxos@)),
    {
        let ghost all = utxos_view(utxos@);
        let ghost wanted = |u: Utxo| is_candidate(self@, u);
        let ghost ready = |u: Utxo| prepared_coin(u);
        let mut out: Vec<MintInput> = Vec::new();
        proof {
            reveal(Seq::filter);
            assert(prepared(out@) =~= all.take(0).filter(wanted).map_values(ready));
        }
        let mut i: usize = 0;
        while i < utxos.len()
            invariant
                all == utxos_view(utxos@),
                wanted == (|u: Utxo| is_candidate(self@, u)),
                ready == (|u: Utxo| prepared_coin(u)),
                i <= utxos@.len(),
                prepared(out@) == all.take(i as int).filter(wanted).map_values(ready),
            decreases utxos@.len() - i,
        {
            let ghost before = prepared(out@);
            let utxo = &utxos[i];
            proof {
                assert(all[i as int] == utxo@);
                lemma_filter_next(all, wanted, i as int);
            }
            let free = !utxo.is_spent && !self.locked_utxos.contains(utxo.outpoint.as_str())
                && !self.state.locked_utxos().contains(utxo.outpoint.as_str());
            if free {
                if let Some(input) = build_input_pair(utxo) {
                    out.push(input);
                    proof {
                        assert(prepared(out@) =~= before.push(prepared_coin(utxo@)));
                        assert(all.take(i + 1).filter(wanted).map_values(ready) =~= all.take(
                            i as int,
                        ).filter(wanted).map_values(ready).push(prepared_coin(utxo@)));
                    }
                }
            }
            i += 1;
        }
        proof {
            assert(all.take(i as int) =~= all);
            let names = inputs_view(out@);
            let picked = all.filter(wanted);
            assert(prepared(out@).len() == picked.len());
            assert forall|k: int| 0 <= k < names.len() implies #[trigger] names[k]
                == picked[k].outpoint by {
                assert(prepared(out@)[k] == prepared_coin(picked[k]));
            }
            assert(names =~= candidates(self@, all));
        }
        out
    }

    /// Selects the coins to add to the board of a quote, and locks them to it. `chosen` is the
    /// place of the candidate that the payjoin protocol prefers for privacy.
    pub fn select_mint_inputs(
        &mut self,
        quote_id: &str,
        found: Vec<MintInput>,
        chosen: Option<usize>,
    ) -> (selected: Vec<MintInput>)
        ensures
            selected@ == selection(found@, chosen, old(self)@.input_count),
            inputs_view(selected@) == selection(
                inputs_view(found@),
                chosen,
                old(self)@.input_count,
            ),
            final(self)@ == locked_to(old(self)@, quote_id@, inputs_view(selected@)),
            final(self)@.onramp.state == (OnRampState {
                locked_utxos: locks_added(
                    old(self)@.onramp.state.locked_utxos,
                    quote_id@,
                    inputs_view(selected@),
                ),
                ..old(self)@.onramp.state
            }),
    {
        let ghost all = inputs_view(found@);
        let ghost found_coins = found@;
        let mut selected = found;
        if selected.len() > 0 {
            let target: usize = self.receiver_input_count as usize;
            let at: usize = match chosen {
                Some(c) => if c < selected.len() {
                    c
                } else {
                    0
                },
                None => 0,
            };
            let first = selected.remove(at);
            selected.insert(0, first);
            proof {
                let ordered = seq![all[at as int]] + all.take(at as int) + all.skip(at + 1);
                assert(inputs_view(selected@) =~= ordered);
                assert(selected@ =~= seq![found_coins[at as int]] + found_coins.take(at as int)
                    + found_coins.skip(at + 1));
            }
            let ghost whole = inputs_view(selected@);
            let ghost whole_coins = selected@;
            selected.truncate(target);
            proof {
                if whole.len() > target {
                    assert(inputs_view(selected@) =~= whole.take(target as int));
                    assert(selected@ =~= whole_coins.take(target as int));
                }
            }
        } else {
            proof {
                assert(inputs_view(selected@) =~= Seq::empty());
                assert(selected@ =~= Seq::empty());
            }
        }
        let ghost names = inputs_view(selected@);
        let mut outpoints: Vec<String> = Vec::new();
        let ghost before = self@;
        proof {
            assert(before.locked =~= before.locked.union(
                Set::new(|o: Seq<char>| names.take(0).contains(o)),
            ));
        }
        let mut i: usize = 0;
        while i < selected.len()
            invariant
                names == inputs_view(selected@),
                i <= selected@.len(),
                texts(outpoints@) == names.take(i as int),
                self@ == (ReceiverView { locked: self@.locked, ..before }),
                self@.locked == before.locked.union(
                    Set::new(|o: Seq<char>| names.take(i as int).contains(o)),
                ),
            decreases selected@.len() - i,
        {
            let ghost held = self@.locked;
            let ghost sofar = texts(outpoints@);
            self.locked_utxos.insert(selected[i].outpoint.clone(), ());
            outpoints.push(selected[i].outpoint.clone());
            proof {
                assert(names[i as int] == selected@[i as int].outpoint@);
                assert(texts(outpoints@) =~= sofar.push(names[i as int]));
                assert(names.take(i + 1) =~= names.take(i as int).push(names[i as int]));
                lemma_contains_push(names.take(i as int), names[i as int]);
                assert(self@.locked =~= held.insert(names[i as int]));
                assert(self@.locked =~= before.locked.union(
                    Set::new(|o: Seq<char>| names.take(i + 1).contains(o)),
                ));
            }
            i += 1;
        }
        proof {
            assert(names.take(i as int) =~= names);
        }
        self.state.lock_utxos(quote_id, &outpoints);
        selected
    }

    /// Releases coins from a quote: these in memory, and all of the quote's durably.
    pub fn unlock_utxos(&mut self, quote_id: &str, outpoints: &Vec<String>)
        ensures
            final(self)@ == released_from(old(self)@, quote_id@, texts(outpoints@)),
            final(self)@.onramp.state == (OnRampState {
                locked_utxos: locks_released(old(self)@.onramp.state.locked_utxos, quote_id@),
                ..old(self)@.onramp.state
            }),
    {
        let ghost names = texts(outpoints@);
        let ghost before = self@;
        proof {
            assert(before.locked =~= before.locked.difference(
                Set::new(|o: Seq<char>| names.take(0).contains(o)),
            ));
        }
        let mut i: usize = 0;
        while i < outpoints.len()
            invariant
                names == texts(outpoints@),
                i <= outpoints@.len(),
                self@ == (ReceiverView { locked: self@.locked, ..before }),
                self@.locked == before.locked.difference(
                    Set::new(|o: Seq<char>| names.take(i as int).contains(o)),
                ),
            decreases outpoints@.len() - i,
        {
            let ghost held = self@.locked;
            self.locked_utxos.remove(outpoints[i].as_str());
            proof {
                assert(names[i as int] == outpoints@[i as int]@);
                assert(names.take(i + 1) =~= names.take(i as int).push(names[i as int]));
                lemma_contains_push(names.take(i as int), names[i as int]);
                assert(self@.locked =~= held.remove(names[i as int]));
                assert(self@.locked =~= before.locked.difference(
                    Set::new(|o: Seq<char>| names.take(i + 1).contains(o)),
                ));
            }
            i += 1;
        }
        proof {
            assert(names.take(i as int) =~= names);
        }
        self.state.unlock_utxos_for_quote(quote_id);
    }
}

proof fn lemma_contains_push(s: Seq<Seq<char>>, x: Seq<char>)
    ensures
        forall|o: Seq<char>| #[trigger] s.push(x).contains(o) == (s.contains(o) || o == x),
{
    assert forall|o: Seq<char>| #[trigger] s.push(x).contains(o) == (s.contains(o) || o == x) by {
        let longer = s.push(x);
        if longer.contains(o) {
            let j = choose|j: int| 0 <= j < longer.len() && longer[j] == o;
            if j < s.len() {
                assert(s[j] == o);
            }
        }
        if s.contains(o) {
            let j = choose|j: int| 0 <= j < s.len() && s[j] == o;
            assert(longer[j] == o);
        }
        assert(longer[s.len() as int] == x);
    }
}

/// Every selected coin is a candidate.
pub proof fn lemma_selected_are_candidates<A>(
    candidates: Seq<A>,
    chosen: Option<usize>,
    count: u32,
    i: int,
)
    requires
        0 <= i < selection(candidates, chosen, count).len(),
    ensures
        candidates.contains(selection(candidates, chosen, count)[i]),
        candidates.len() > 0,
{
    let at: int = match chosen {
        Some(c) => if c < candidates.len() {
            c as int
        } else {
            0
        },
        None => 0,
    };
    let ordered = seq![candidates[at]] + candidates.take(at) + candidates.skip(at + 1);
    let x = selection(candidates, chosen, count)[i];
    assert(candidates.len() > 0);
    assert(x == ordered[i]);
    if i == 0 {
        assert(candidates[at] == x);
    } else if i <= at {
        assert(ordered[i] == candidates[i - 1]);
    } else {
        assert(ordered[i] == candidates[i]);
    }
}

/// A board gets as many coins of the mint as are configured, or all candidates where there are
/// fewer. Where it gets any, the one preferred for privacy comes first.
pub proof fn law_selection_size<A>(candidates: Seq<A>, chosen: Option<usize>, count: u32)
    ensures
        selection(candidates, chosen, count).len() == if count < candidates.len() {
            count as nat
        } else {
            candidates.len()
        },
        count > 0 ==> (chosen matches Some(c) ==> c < candidates.len() ==> selection(
            candidates,
            chosen,
            count,
        )[0] == candidates[c as int]),
{
}

/// Two boards never add the same coin: what is selected for one quote is not selected for another
/// while it is locked, whatever the wallet lists and whatever the protocol prefers.
pub proof fn law_boards_never_share_coins(
    receiver: ReceiverView,
    quote_id: Seq<char>,
    utxos: Seq<Utxo>,
    chosen: Option<usize>,
    later_utxos: Seq<Utxo>,
    later_chosen: Option<usize>,
    coin: Seq<char>,
)
    requires
        selection(candidates(receiver, utxos), chosen, receiver.input_count).contains(coin),
    ensures
        ({
            let selected = selection(candidates(receiver, utxos), chosen, receiver.input_count);
            let later = locked_to(receiver, quote_id, selected);
            !selection(
                candidates(later, later_utxos),
                later_chosen,
                later.input_count,
            ).contains(coin)
        }),
{
    let selected = selection(candidates(receiver, utxos), chosen, receiver.input_count);
    let later = locked_to(receiver, quote_id, selected);
    let again = selection(candidates(later, later_utxos), later_chosen, later.input_count);
    assert(later.locked.contains(coin));
    if again.contains(coin) {
        let i = choose|i: int| 0 <= i < again.len() && again[i] == coin;
        lemma_selected_are_candidates(
            candidates(later, later_utxos),
            later_chosen,
            later.input_count,
            i,
        );
        lemma_candidate_is_free(later, later_utxos, coin);
    }
}

/// The same holds across a restart, which forgets the locks in memory: the durable ones are
/// enough.
pub proof fn law_locks_survive_a_restart(
    receiver: ReceiverView,
    quote_id: Seq<char>,
    utxos: Seq<Utxo>,
    chosen: Option<usize>,
    later_utxos: Seq<Utxo>,
    later_chosen: Option<usize>,
    coin: Seq<char>,
)
    requires
        selection(candidates(receiver, utxos), chosen, receiver.input_count).contains(coin),
    ensures
        ({
            let selected = selection(candidates(receiver, utxos), chosen, receiver.input_count);
            let restarted = ReceiverView {
                locked: Set::empty(),
                ..locked_to(receiver, quote_id, selected)
            };
            !selection(
                candidates(restarted, later_utxos),
                later_chosen,
                restarted.input_count,
            ).contains(coin)
        }),
{
    let selected = selection(candidates(receiver, utxos), chosen, receiver.input_count);
    let restarted = ReceiverView {
        locked: Set::empty(),
        ..locked_to(receiver, quote_id, selected)
    };
    let again = selection(
        candidates(restarted, later_utxos),
        later_chosen,
        restarted.input_count,
    );
    lemma_lock_rows(receiver.onramp, quote_id, selected);
    assert(restarted.onramp.state.locked_utxos.dom().contains(coin));
    if again.contains(coin) {
        let i = choose|i: int| 0 <= i < again.len() && again[i] == coin;
        lemma_selected_are_candidates(
            candidates(restarted, later_utxos),
            later_chosen,
            restarted.input_count,
            i,
        );
        lemma_candidate_is_free(restarted, later_utxos, coin);
    }
}

/// A candidate is in no use.
pub proof fn lemma_candidate_is_free(receiver: ReceiverView, utxos: Seq<Utxo>, coin: Seq<char>)
    requires
        candidates(receiver, utxos).contains(coin),
    ensures
        !receiver.locked.contains(coin),
        !receiver.onramp.state.locked_utxos.dom().contains(coin),
{
    let wanted = |u: Utxo| is_candidate(receiver, u);
    let picked = utxos.filter(wanted);
    let all = candidates(receiver, utxos);
    let i = choose|i: int| 0 <= i < all.len() && all[i] == coin;
    assert(picked[i].outpoint == coin);
    lemma_filter_holds(utxos, wanted, picked[i]);
    assert(picked.contains(picked[i]));
}

/// A coin may be added to a board only if it is unspent, no board of this process uses it, none is
/// on record as using it, it pays to a taproot key or a witness public key hash, and its outpoint can
/// be read; and every such coin may be.
pub proof fn law_candidates_are_unspent_and_free(receiver: ReceiverView, u: Utxo)
    ensures
        u.is_spent ==> !is_candidate(receiver, u),
        receiver.locked.contains(u.outpoint) ==> !is_candidate(receiver, u),
        receiver.onramp.state.locked_utxos.dom().contains(u.outpoint) ==> !is_candidate(receiver, u),
        !is_p2tr(u.script) && !is_p2wpkh(u.script) ==> !is_candidate(receiver, u),
        outpoint_parsed(u.outpoint) is Err ==> !is_candidate(receiver, u),
        !u.is_spent && !receiver.locked.contains(u.outpoint)
            && !receiver.onramp.state.locked_utxos.dom().contains(u.outpoint) && (is_p2tr(u.script)
            || is_p2wpkh(u.script)) && outpoint_parsed(u.outpoint) is Ok ==> is_candidate(
            receiver,
            u,
        ),
{
}

/// The candidates are the coins of the wallet that may be added: each is one of them, and none is
/// left out.
pub proof fn law_candidates_are_of_the_wallet(
    receiver: ReceiverView,
    utxos: Seq<Utxo>,
    outpoint: Seq<char>,
)
    ensures
        candidates(receiver, utxos).contains(outpoint) <==> exists|i: int|
            0 <= i < utxos.len() && (#[trigger] utxos[i]).outpoint == outpoint && is_candidate(
                receiver,
                utxos[i],
            ),
{
    let wanted = |u: Utxo| is_candidate(receiver, u);
    let picked = utxos.filter(wanted);
    let all = candidates(receiver, utxos);
    if all.contains(outpoint) {
        let k = choose|k: int| 0 <= k < all.len() && all[k] == outpoint;
        lemma_filter_holds(utxos, wanted, picked[k]);
        assert(picked.contains(picked[k]));
        let i = choose|i: int| 0 <= i < utxos.len() && utxos[i] == picked[k];
        assert(utxos[i].outpoint == outpoint && is_candidate(receiver, utxos[i]));
    }
    if exists|i: int|
        0 <= i < utxos.len() && (#[trigger] utxos[i]).outpoint == outpoint && is_candidate(
            receiver,
            utxos[i],
        ) {
        let i = choose|i: int|
            0 <= i < utxos.len() && (#[trigger] utxos[i]).outpoint == outpoint && is_candidate(
                receiver,
                utxos[i],
            );
        lemma_filter_holds(utxos, wanted, utxos[i]);
        assert(utxos.contains(utxos[i]));
        let k = choose|k: int| 0 <= k < picked.len() && picked[k] == utxos[i];
        assert(all[k] == outpoint);
    }
}

/// The coin preferred for privacy is added first, and the others follow in their order, each in one
/// place. Without a preference, or with one for no candidate, the order stays.
pub proof fn law_selection_keeps_the_order<A>(
    candidates: Seq<A>,
    chosen: Option<usize>,
    count: u32,
    i: int,
)
    requires
        0 <= i < selection(candidates, chosen, count).len(),
    ensures
        i < candidates.len() && i < count,
        chosen is None ==> selection(candidates, chosen, count)[i] == candidates[i],
        chosen matches Some(c) ==> {
            &&& c >= candidates.len() ==> selection(candidates, chosen, count)[i] == candidates[i]
            &&& c < candidates.len() && i == 0 ==> selection(candidates, chosen, count)[i]
                == candidates[c as int]
            &&& c < candidates.len() && 0 < i <= c ==> selection(candidates, chosen, count)[i]
                == candidates[i - 1]
            &&& c < candidates.len() && i > c ==> selection(candidates, chosen, count)[i]
                == candidates[i]
        },
{
    lemma_selected_are_candidates(candidates, chosen, count, i);
    let at: int = match chosen {
        Some(c) => if c < candidates.len() {
            c as int
        } else {
            0
        },
        None => 0,
    };
    let ordered = seq![candidates[at]] + candidates.take(at) + candidates.skip(at + 1);
    assert(selection(candidates, chosen, count)[i] == ordered[i]);
    if i == 0 {
        assert(ordered[0] == candidates[at]);
    } else if i <= at {
        assert(ordered[i] == candidates[i - 1]);
    } else {
        assert(ordered[i] == candidates[i]);
    }
}

/// A coin that is made ready is spent at its own outpoint, with its own script and value, in the
/// way of its kind of script.
pub proof fn law_prepared_coin_is_the_coin(u: Utxo)
    ensures
        prepared_coin(u).0 == u.outpoint,
        is_p2tr(u.script) ==> prepared_coin(u).1 == p2tr_pair(u.script, u.value_sat, u.outpoint),
        is_p2wpkh(u.script) ==> prepared_coin(u).1 == p2wpkh_pair(
            u.script,
            u.value_sat,
            u.outpoint,
        ),
{
}

/// Coins that are locked to a quote are in use, in memory and on record, and no other coin comes
/// into use. Nothing else changes.
pub proof fn law_locking_puts_coins_in_use(
    receiver: ReceiverView,
    quote_id: Seq<char>,
    outpoints: Seq<Seq<char>>,
    o: Seq<char>,
)
    ensures
        ({
            let after = locked_to(receiver, quote_id, outpoints);
            &&& after.locked.contains(o) <==> receiver.locked.contains(o) || outpoints.contains(o)
            &&& outpoints.contains(o) ==> after.onramp.state.locked_utxos.dom().contains(o)
                && after.onramp.state.locked_utxos[o] == quote_id
            &&& !outpoints.contains(o) ==> after.onramp.state.locked_utxos.dom().contains(o)
                == receiver.onramp.state.locked_utxos.dom().contains(o)
            &&& after == (ReceiverView { locked: after.locked, onramp: after.onramp, ..receiver })
        }),
{
    lemma_lock_rows(receiver.onramp, quote_id, outpoints);
}

/// Coins that are released are in use in memory no longer, and no other coin is released there.
/// Nothing else changes but the record.
pub proof fn law_releasing_frees_coins(
    receiver: ReceiverView,
    quote_id: Seq<char>,
    outpoints: Seq<Seq<char>>,
    o: Seq<char>,
)
    ensures
        ({
            let after = released_from(receiver, quote_id, outpoints);
            &&& after.locked.contains(o) <==> receiver.locked.contains(o) && !outpoints.contains(o)
            &&& after == (ReceiverView { locked: after.locked, onramp: after.onramp, ..receiver })
        }),
{
}

/// What several coins say is what each of them says, field by field and in their order.
pub proof fn law_coins_say_what_they_hold(v: Seq<MintUtxo>, i: int)
    requires
        0 <= i < v.len(),
    ensures
        utxos_view(v).len() == v.len(),
        utxos_view(v)[i].outpoint == v[i].outpoint@,
        utxos_view(v)[i].script == v[i].script@,
        utxos_view(v)[i].value_sat == v[i].value_sat,
        utxos_view(v)[i].is_spent == v[i].is_spent,
{
}

/// Several coins are said each in its place, by its outpoint.
pub proof fn law_inputs_are_said_in_order(v: Seq<MintInput>, i: int)
    requires
        0 <= i < v.len(),
    ensures
        inputs_view(v).len() == v.len(),
        inputs_view(v)[i] == v[i].outpoint@,
{
}

/// Several coins that are ready are said each in its place, with its outpoint.
pub proof fn law_prepared_coins_are_said_in_order(v: Seq<MintInput>, i: int)
    requires
        0 <= i < v.len(),
    ensures
        prepared(v).len() == v.len(),
        prepared(v)[i] == (v[i].outpoint@, v[i].pair),
{
}

} // verus!
