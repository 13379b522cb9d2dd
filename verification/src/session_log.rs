//! The order of a session's event log: events are kept under numbered keys, and the keys are
//! padded so that the order of their texts is the order of the numbers.

use crate::order::{
    key_order, lemma_before_after_prefix, lemma_before_by_last, lemma_before_one_way,
    lemma_key_order, lemma_key_order_is, lemma_order_insert, lemma_place_of, precedes,
};
use crate::seqs::lemma_filter_holds;
use crate::text::{
    begins_with, decimal, digit_char, is_number, lemma_decimal_is_number, zero_padded,
};
use vstd::prelude::*;

verus! {

/// How many digits the number of an event is padded to.
pub open spec fn seq_width() -> nat {
    12
}

/// What the keys of a quote's events begin with.
pub open spec fn log_prefix(quote_id: Seq<char>) -> Seq<char> {
    quote_id + ":"@
}

/// The key of the `seq`-th event of a quote.
pub open spec fn event_key(quote_id: Seq<char>, seq: nat) -> Seq<char> {
    log_prefix(quote_id) + zero_padded(decimal(seq), seq_width())
}

/// Whether a key is that of an event of a quote: the quote's id, a colon and a number.
pub open spec fn is_event_key(k: Seq<char>, quote_id: Seq<char>) -> bool {
    begins_with(k, log_prefix(quote_id)) && is_number(k.skip(log_prefix(quote_id).len() as int))
}

/// The keys of a quote's events, in order.
pub open spec fn log_keys(events: Map<Seq<char>, Seq<char>>, quote_id: Seq<char>) -> Seq<
    Seq<char>,
> {
    key_order(events).filter(|k: Seq<char>| is_event_key(k, quote_id))
}

/// A quote's events, in the order of their keys.
pub open spec fn log_events(events: Map<Seq<char>, Seq<char>>, quote_id: Seq<char>) -> Seq<
    Seq<char>,
> {
    log_keys(events, quote_id).map_values(|k: Seq<char>| events[k])
}

/// A quote's log is numbered from zero without gaps.
pub open spec fn log_numbered(events: Map<Seq<char>, Seq<char>>, quote_id: Seq<char>) -> bool {
    forall|i: int|
        0 <= i < log_keys(events, quote_id).len() ==> #[trigger] log_keys(events, quote_id)[i]
            == event_key(quote_id, i as nat)
}

proof fn lemma_padded_is_number(n: nat)
    ensures
        is_number(zero_padded(decimal(n), seq_width())),
{
    lemma_decimal_is_number(n);
    let text = decimal(n);
    let padded = zero_padded(text, seq_width());
    let zeros = padded.len() - text.len();
    assert forall|i: int| 0 <= i < padded.len() implies '0' <= #[trigger] padded[i] <= '9' by {
        if i >= zeros {
            assert(padded[i] == text[i - zeros]);
        }
    }
}

spec fn pow10(w: nat) -> nat
    decreases w,
{
    if w == 0 {
        1
    } else {
        10 * pow10((w - 1) as nat)
    }
}

spec fn digits(n: nat, w: nat) -> Seq<char>
    decreases w,
{
    if w == 0 {
        Seq::empty()
    } else {
        digits(n / 10, (w - 1) as nat).push(digit_char(n % 10))
    }
}

proof fn lemma_digits_len(n: nat, w: nat)
    ensures
        digits(n, w).len() == w,
    decreases w,
{
    if w > 0 {
        lemma_digits_len(n / 10, (w - 1) as nat);
    }
}

proof fn lemma_zero_digits(w: nat)
    ensures
        digits(0, w) == Seq::new(w, |i: int| '0'),
    decreases w,
{
    if w > 0 {
        lemma_zero_digits((w - 1) as nat);
        assert(digits(0, w) =~= Seq::new(w, |i: int| '0'));
    } else {
        assert(digits(0, w) =~= Seq::new(w, |i: int| '0'));
    }
}

proof fn lemma_padded_is_digits(n: nat, w: nat)
    requires
        w > 0,
        n < pow10(w),
    ensures
        zero_padded(decimal(n), w) == digits(n, w),
        decimal(n).len() <= w,
    decreases w,
{
    let v = (w - 1) as nat;
    if n < 10 {
        assert(n / 10 == 0 && n % 10 == n);
        lemma_zero_digits(v);
        assert(zero_padded(decimal(n), w) =~= digits(n, w));
    } else {
        assert(pow10(w) == 10 * pow10(v));
        assert(n / 10 < pow10(v));
        if v == 0 {
            assert(pow10(0) == 1);
        }
        lemma_padded_is_digits(n / 10, v);
        assert(zero_padded(decimal(n), w) =~= digits(n, w));
    }
}

proof fn lemma_digits_ordered(a: nat, b: nat, w: nat)
    requires
        a < b < pow10(w),
    ensures
        precedes(digits(a, w), digits(b, w)),
    decreases w,
{
    if w > 0 {
        let v = (w - 1) as nat;
        lemma_digits_len(a, w);
        lemma_digits_len(b, w);
        assert(pow10(w) == 10 * pow10(v));
        let da = digits(a, w);
        let db = digits(b, w);
        assert(da.drop_last() =~= digits(a / 10, v));
        assert(db.drop_last() =~= digits(b / 10, v));
        lemma_before_by_last(da, db);
        if a / 10 < b / 10 {
            lemma_digits_ordered(a / 10, b / 10, v);
        } else {
            assert(a / 10 == b / 10);
            assert(a % 10 < b % 10);
        }
    }
}


proof fn lemma_log_capacity()
    ensures
        pow10(seq_width()) == 1_000_000_000_000,
{
    reveal_with_fuel(pow10, 13);
}

proof fn lemma_event_keys_ordered(quote_id: Seq<char>, a: nat, b: nat)
    requires
        a < b < 1_000_000_000_000,
    ensures
        precedes(event_key(quote_id, a), event_key(quote_id, b)),
{
    lemma_log_capacity();
    lemma_padded_is_digits(a, seq_width());
    lemma_padded_is_digits(b, seq_width());
    lemma_digits_ordered(a, b, seq_width());
    lemma_before_after_prefix(
        log_prefix(quote_id),
        digits(a, seq_width()),
        digits(b, seq_width()),
    );
}

proof fn lemma_key_is_of_its_quote(quote_id: Seq<char>, seq: nat)
    ensures
        is_event_key(event_key(quote_id, seq), quote_id),
{
    let p = log_prefix(quote_id);
    lemma_padded_is_number(seq);
    assert(event_key(quote_id, seq).take(p.len() as int) =~= p);
    assert(event_key(quote_id, seq).skip(p.len() as int) =~= zero_padded(
        decimal(seq),
        seq_width(),
    ));
}

proof fn lemma_filter_none(s: Seq<Seq<char>>, p: spec_fn(Seq<char>) -> bool)
    requires
        forall|i: int| 0 <= i < s.len() ==> !p(#[trigger] s[i]),
    ensures
        s.filter(p) == Seq::<Seq<char>>::empty(),
    decreases s.len(),
{
    reveal(Seq::filter);
    if s.len() > 0 {
        assert(!p(s.last()));
        lemma_filter_none(s.drop_last(), p);
    }
}

proof fn lemma_filter_parts(
    a: Seq<Seq<char>>,
    b: Seq<Seq<char>>,
    p: spec_fn(Seq<char>) -> bool,
)
    ensures
        (a + b).filter(p) == a.filter(p) + b.filter(p),
    decreases b.len(),
{
    reveal(Seq::filter);
    if b.len() == 0 {
        assert(a + b =~= a);
        assert(a.filter(p) + b.filter(p) =~= a.filter(p));
    } else {
        lemma_filter_parts(a, b.drop_last(), p);
        assert((a + b).drop_last() =~= a + b.drop_last());
        assert((a + b).last() == b.last());
        if p(b.last()) {
            assert(a.filter(p) + b.filter(p) =~= (a.filter(p) + b.drop_last().filter(p)).push(
                b.last(),
            ));
        }
    }
}

/// An event that is saved under the next number is read back last, after all that were there, and
/// the log stays numbered. The number of events is bounded by what the padding can keep in order.
pub proof fn law_saved_event_is_read_last(
    events: Map<Seq<char>, Seq<char>>,
    quote_id: Seq<char>,
    event: Seq<char>,
)
    requires
        events.dom().finite(),
        log_numbered(events, quote_id),
        log_keys(events, quote_id).len() < 1_000_000_000_000,
    ensures
        ({
            let n = log_keys(events, quote_id).len();
            let saved = events.insert(event_key(quote_id, n), event);
            &&& log_events(saved, quote_id) == log_events(events, quote_id).push(event)
            &&& log_keys(saved, quote_id).len() == n + 1
            &&& log_numbered(saved, quote_id)
            &&& saved.dom().finite()
        }),
{
    let p = |k: Seq<char>| is_event_key(k, quote_id);
    let old_keys = log_keys(events, quote_id);
    let n = old_keys.len();
    let k = event_key(quote_id, n);
    let saved = events.insert(k, event);
    lemma_key_order(events);
    let keys = key_order(events);
    lemma_key_is_of_its_quote(quote_id, n);
    // No key of the log is the new one or comes after it.
    assert forall|x: Seq<char>| keys.contains(x) && p(x) implies precedes(x, k) && x != k by {
        lemma_filter_holds(keys, p, x);
        let i = choose|i: int| 0 <= i < old_keys.len() && old_keys[i] == x;
        lemma_event_keys_ordered(quote_id, i as nat, n);
        lemma_before_one_way(x, k);
    }
    assert(!keys.contains(k));
    assert(!events.dom().contains(k));
    let at = lemma_place_of(keys, k);
    lemma_order_insert(keys, events.dom(), k, at);
    let more = keys.insert(at, k);
    assert(saved.dom() =~= events.dom().insert(k));
    lemma_key_order_is(saved, more);
    // Split both key sequences at the new key.
    let front = keys.take(at);
    let back = keys.skip(at);
    assert(keys =~= front + back);
    assert(more =~= front.push(k) + back);
    lemma_filter_parts(front, back, p);
    lemma_filter_parts(front.push(k), back, p);
    assert forall|i: int| 0 <= i < back.len() implies !p(#[trigger] back[i]) by {
        assert(back[i] == keys[at + i]);
        assert(precedes(k, keys[at + i]));
        if p(back[i]) {
            assert(keys.contains(keys[at + i]));
            lemma_before_one_way(k, keys[at + i]);
        }
    }
    lemma_filter_none(back, p);
    assert(front.push(k).filter(p) == front.filter(p).push(k)) by {
        reveal(Seq::filter);
        assert(front.push(k).drop_last() =~= front);
        assert(front.push(k).last() == k);
    }
    assert(old_keys =~= front.filter(p));
    let new_keys = log_keys(saved, quote_id);
    assert(new_keys =~= old_keys.push(k));
    assert forall|i: int| 0 <= i < old_keys.len() implies events[#[trigger] old_keys[i]]
        == saved[old_keys[i]] by {
        lemma_filter_holds(keys, p, old_keys[i]);
        assert(old_keys.contains(old_keys[i]));
    }
    assert(log_events(saved, quote_id) =~= log_events(events, quote_id).push(event));
}

/// A key is that of an event of at most one quote.
pub proof fn law_event_is_of_one_quote(k: Seq<char>, quote_id: Seq<char>, other: Seq<char>)
    requires
        is_event_key(k, quote_id),
        is_event_key(k, other),
    ensures
        quote_id == other,
{
    reveal_strlit(":");
    let n = quote_id.len() as int;
    let m = other.len() as int;
    assert(k.take(n + 1)[n] == ':');
    assert(k.take(m + 1)[m] == ':');
    // The colon that ends the longer id would be a digit of the number behind the shorter one.
    if n < m {
        assert(k.skip(n + 1)[m - n - 1] == ':');
    } else if m < n {
        assert(k.skip(m + 1)[n - m - 1] == ':');
    } else {
        assert(quote_id =~= k.take(n + 1).take(n));
        assert(other =~= k.take(n + 1).take(n));
    }
}

/// Saving an event for one quote leaves the log of every other quote as it was.
pub proof fn law_other_logs_stay(
    events: Map<Seq<char>, Seq<char>>,
    quote_id: Seq<char>,
    seq: nat,
    event: Seq<char>,
    other: Seq<char>,
)
    requires
        events.dom().finite(),
        quote_id != other,
    ensures
        ({
            let saved = events.insert(event_key(quote_id, seq), event);
            &&& log_keys(saved, other) == log_keys(events, other)
            &&& log_events(saved, other) == log_events(events, other)
        }),
{
    let p = |k: Seq<char>| is_event_key(k, other);
    let k = event_key(quote_id, seq);
    let saved = events.insert(k, event);
    lemma_key_order(events);
    let keys = key_order(events);
    assert(!p(k)) by {
        lemma_key_is_of_its_quote(quote_id, seq);
        if p(k) {
            law_event_is_of_one_quote(k, quote_id, other);
        }
    }
    if events.dom().contains(k) {
        assert(saved.dom() =~= events.dom());
        lemma_key_order_is(saved, keys);
    } else {
        assert(!keys.contains(k));
        let at = lemma_place_of(keys, k);
        lemma_order_insert(keys, events.dom(), k, at);
        let more = keys.insert(at, k);
        assert(saved.dom() =~= events.dom().insert(k));
        lemma_key_order_is(saved, more);
        let front = keys.take(at);
        let back = keys.skip(at);
        assert(keys =~= front + back);
        assert(more =~= front.push(k) + back);
        lemma_filter_parts(front, back, p);
        lemma_filter_parts(front.push(k), back, p);
        assert(front.push(k).filter(p) == front.filter(p)) by {
            reveal(Seq::filter);
            assert(front.push(k).drop_last() =~= front);
            assert(front.push(k).last() == k);
        }
    }
    let other_keys = log_keys(events, other);
    assert(log_keys(saved, other) == other_keys);
    assert forall|i: int| 0 <= i < other_keys.len() implies events[#[trigger] other_keys[i]]
        == saved[other_keys[i]] by {
        lemma_filter_holds(keys, p, other_keys[i]);
        assert(other_keys.contains(other_keys[i]));
    }
    assert(log_events(saved, other) =~= log_events(events, other));
}

/// The events table after several saves into an empty one, each for a quote, one after the other.
pub open spec fn all_saved(saves: Seq<(Seq<char>, Seq<char>)>) -> Map<Seq<char>, Seq<char>>
    decreases saves.len(),
{
    if saves.len() == 0 {
        Map::empty()
    } else {
        let before = all_saved(saves.drop_last());
        let (quote_id, event) = saves.last();
        before.insert(event_key(quote_id, log_keys(before, quote_id).len()), event)
    }
}

/// What was saved for a quote, in order.
pub open spec fn saved_for(saves: Seq<(Seq<char>, Seq<char>)>, quote_id: Seq<char>) -> Seq<
    Seq<char>,
> {
    saves.filter(|s: (Seq<char>, Seq<char>)| s.0 == quote_id).map_values(
        |s: (Seq<char>, Seq<char>)| s.1,
    )
}

/// Whatever is saved for whichever quotes, the log of a quote gives back what was saved for it, in
/// order and nothing else. The number of events is bounded by what the padding can keep in order.
pub proof fn law_log_gives_back_what_was_saved(
    saves: Seq<(Seq<char>, Seq<char>)>,
    quote_id: Seq<char>,
)
    requires
        saves.len() <= 1_000_000_000_000,
    ensures
        log_events(all_saved(saves), quote_id) == saved_for(saves, quote_id),
        log_keys(all_saved(saves), quote_id).len() == saved_for(saves, quote_id).len(),
        saved_for(saves, quote_id).len() <= saves.len(),
        log_numbered(all_saved(saves), quote_id),
        all_saved(saves).dom().finite(),
    decreases saves.len(),
{
    reveal(Seq::filter);
    let events = all_saved(saves);
    if saves.len() == 0 {
        lemma_key_order(events);
        let keys = key_order(events);
        if keys.len() > 0 {
            assert(keys.contains(keys[0]));
            assert(events.dom().contains(keys[0]));
        }
        assert(log_keys(events, quote_id).len() == 0);
        assert(log_events(events, quote_id) =~= saved_for(saves, quote_id));
    } else {
        let front = saves.drop_last();
        let before = all_saved(front);
        let (q, event) = saves.last();
        law_log_gives_back_what_was_saved(front, quote_id);
        if q == quote_id {
            law_saved_event_is_read_last(before, q, event);
            assert(saved_for(saves, quote_id) =~= saved_for(front, quote_id).push(event));
        } else {
            law_other_logs_stay(before, q, log_keys(before, q).len(), event, quote_id);
            assert(saved_for(saves, quote_id) =~= saved_for(front, quote_id));
            assert forall|i: int|
                0 <= i < log_keys(events, quote_id).len() implies #[trigger] log_keys(
                events,
                quote_id,
            )[i] == event_key(quote_id, i as nat) by {
                assert(log_keys(before, quote_id)[i] == event_key(quote_id, i as nat));
            }
        }
    }
}

/// The keys of a quote's events run in the order of their numbers: each begins with the quote's id
/// and a colon, all have the same length, and a smaller number comes first.
pub proof fn law_event_keys_run_in_order(quote_id: Seq<char>, a: nat, b: nat)
    requires
        a < b < 1_000_000_000_000,
    ensures
        precedes(event_key(quote_id, a), event_key(quote_id, b)),
        begins_with(event_key(quote_id, a), quote_id + ":"@),
        event_key(quote_id, a).len() == quote_id.len() + 13,
        event_key(quote_id, b).len() == quote_id.len() + 13,
        is_event_key(event_key(quote_id, a), quote_id),
        decimal(a).is_suffix_of(event_key(quote_id, a)),
{
    reveal_strlit(":");
    lemma_event_keys_ordered(quote_id, a, b);
    lemma_key_is_of_its_quote(quote_id, a);
    lemma_log_capacity();
    lemma_padded_is_digits(a, seq_width());
    lemma_padded_is_digits(b, seq_width());
    let key = event_key(quote_id, a);
    let n = decimal(a).len() as int;
    assert(key.subrange(key.len() - n, key.len() as int) =~= decimal(a));
}

} // verus!
