//! Finding and picking in sequences.

use crate::order::{key_order, lemma_key_order, precedes};
use vstd::prelude::*;

verus! {

/// The first element of `s` that has the property, if any has it.
pub open spec fn first_where<T>(s: Seq<T>, p: spec_fn(T) -> bool) -> Option<T>
    decreases s.len(),
{
    if s.len() == 0 {
        None
    } else if p(s[0]) {
        Some(s[0])
    } else {
        first_where(s.drop_first(), p)
    }
}

/// The element at `i` is the first with the property if it has it and none before it does.
pub proof fn lemma_first_is<T>(s: Seq<T>, p: spec_fn(T) -> bool, i: int)
    requires
        0 <= i < s.len(),
        p(s[i]),
        forall|j: int| 0 <= j < i ==> !p(#[trigger] s[j]),
    ensures
        first_where(s, p) == Some(s[i]),
    decreases i,
{
    if i > 0 {
        assert(!p(s[0]));
        let rest = s.drop_first();
        assert forall|j: int| 0 <= j < i - 1 implies !p(#[trigger] rest[j]) by {
            assert(rest[j] == s[j + 1]);
        }
        lemma_first_is(rest, p, i - 1);
    }
}

/// There is no first element with a property that none has.
pub proof fn lemma_no_first<T>(s: Seq<T>, p: spec_fn(T) -> bool)
    requires
        forall|j: int| 0 <= j < s.len() ==> !p(#[trigger] s[j]),
    ensures
        first_where(s, p) is None,
    decreases s.len(),
{
    if s.len() > 0 {
        assert(!p(s[0]));
        let rest = s.drop_first();
        assert forall|j: int| 0 <= j < rest.len() implies !p(#[trigger] rest[j]) by {
            assert(rest[j] == s[j + 1]);
        }
        lemma_no_first(rest, p);
    }
}

/// Before what was found there is nothing with the property.
pub proof fn lemma_first_found<T>(s: Seq<T>, p: spec_fn(T) -> bool) -> (at: int)
    requires
        first_where(s, p) is Some,
    ensures
        0 <= at < s.len(),
        first_where(s, p) == Some(s[at]),
        p(s[at]),
        forall|j: int| 0 <= j < at ==> !p(#[trigger] s[j]),
    decreases s.len(),
{
    if p(s[0]) {
        0
    } else {
        let rest = s.drop_first();
        let at = lemma_first_found(rest, p);
        assert forall|j: int| 0 <= j < at + 1 implies !p(#[trigger] s[j]) by {
            if j > 0 {
                assert(s[j] == rest[j - 1]);
            }
        }
        at + 1
    }
}

/// What was found has the property and is an element.
pub proof fn lemma_found<T>(s: Seq<T>, p: spec_fn(T) -> bool)
    ensures
        match first_where(s, p) {
            Some(x) => p(x) && s.contains(x),
            None => forall|j: int| 0 <= j < s.len() ==> !p(#[trigger] s[j]),
        },
    decreases s.len(),
{
    if s.len() > 0 {
        let rest = s.drop_first();
        lemma_found(rest, p);
        if p(s[0]) {
            assert(s.contains(s[0]));
        } else {
            match first_where(rest, p) {
                Some(x) => {
                    let j = choose|j: int| 0 <= j < rest.len() && rest[j] == x;
                    assert(s[j + 1] == x);
                },
                None => {
                    assert forall|j: int| 0 <= j < s.len() implies !p(#[trigger] s[j]) by {
                        if j > 0 {
                            assert(rest[j - 1] == s[j]);
                        }
                    }
                },
            }
        }
    }
}

/// Those of the first `i + 1` elements that have the property.
pub proof fn lemma_filter_next<T>(s: Seq<T>, p: spec_fn(T) -> bool, i: int)
    requires
        0 <= i < s.len(),
    ensures
        s.take(i + 1).filter(p) == if p(s[i]) {
            s.take(i).filter(p).push(s[i])
        } else {
            s.take(i).filter(p)
        },
{
    reveal(Seq::filter);
    assert(s.take(i + 1).drop_last() =~= s.take(i));
    assert(s.take(i + 1).last() == s[i]);
}

/// What is picked from a sequence is what is in it and has the property.
pub proof fn lemma_filter_holds<T>(s: Seq<T>, p: spec_fn(T) -> bool, x: T)
    ensures
        s.filter(p).contains(x) <==> s.contains(x) && p(x),
    decreases s.len(),
{
    reveal(Seq::filter);
    if s.len() > 0 {
        let front = s.drop_last();
        lemma_filter_holds(front, p, x);
        assert(s =~= front.push(s.last()));
        if s.contains(x) {
            let i = choose|i: int| 0 <= i < s.len() && s[i] == x;
            if i < front.len() {
                assert(front[i] == x);
            }
        }
        if front.contains(x) {
            let i = choose|i: int| 0 <= i < front.len() && front[i] == x;
            assert(s[i] == x);
        }
        if p(s.last()) {
            let fs = front.filter(p);
            if fs.contains(x) {
                let i = choose|i: int| 0 <= i < fs.len() && fs[i] == x;
                assert(fs.push(s.last())[i] == x);
            }
            if s.last() == x {
                assert(s[s.len() - 1] == x);
                assert(fs.push(s.last())[fs.len() as int] == x);
            }
            if fs.push(s.last()).contains(x) {
                let i = choose|i: int| 0 <= i <= fs.len() && fs.push(s.last())[i] == x;
                if i < fs.len() {
                    assert(fs[i] == x);
                }
            }
        }
    }
}

/// The rows of a table, in key order.
pub open spec fn rows_of<T>(m: Map<Seq<char>, T>) -> Seq<(Seq<char>, T)> {
    key_order(m).map_values(|k: Seq<char>| (k, m[k]))
}

/// The values of a table, in key order.
pub open spec fn values_of<T>(m: Map<Seq<char>, T>) -> Seq<T> {
    key_order(m).map_values(|k: Seq<char>| m[k])
}

/// Every value of a finite table is among its values, and those are its values.
pub proof fn lemma_values_listed<T>(m: Map<Seq<char>, T>)
    requires
        m.dom().finite(),
    ensures
        forall|k: Seq<char>| #[trigger] m.dom().contains(k) ==> values_of(m).contains(m[k]),
        forall|i: int|
            0 <= i < values_of(m).len() ==> m.dom().contains(key_order(m)[i])
                && #[trigger] values_of(m)[i] == m[key_order(m)[i]],
        values_of(m).len() == key_order(m).len(),
{
    lemma_key_order(m);
    let keys = key_order(m);
    let all = values_of(m);
    assert forall|k: Seq<char>| #[trigger] m.dom().contains(k) implies all.contains(m[k]) by {
        assert(keys.contains(k));
        let i = choose|i: int| 0 <= i < keys.len() && keys[i] == k;
        assert(all[i] == m[k]);
    }
    assert forall|i: int| 0 <= i < all.len() implies m.dom().contains(keys[i]) && #[trigger] all[i]
        == m[keys[i]] by {
        assert(keys.contains(keys[i]));
    }
}

/// The first row of a finite table with a property is a row of it, has the property, and comes
/// before every other row that has it. Where there is none, no row has the property.
pub proof fn lemma_first_row<T>(m: Map<Seq<char>, T>, p: spec_fn((Seq<char>, T)) -> bool)
    requires
        m.dom().finite(),
    ensures
        match first_where(rows_of(m), p) {
            Some(row) => {
                &&& m.dom().contains(row.0) && m[row.0] == row.1 && p(row)
                &&& forall|k: Seq<char>| #[trigger]
                    m.dom().contains(k) && p((k, m[k])) ==> k == row.0 || precedes(row.0, k)
            },
            None => forall|k: Seq<char>| #[trigger] m.dom().contains(k) ==> !p((k, m[k])),
        },
{
    lemma_key_order(m);
    let keys = key_order(m);
    let rows = rows_of(m);
    lemma_found(rows, p);
    if first_where(rows, p) is Some {
        let at = lemma_first_found(rows, p);
        assert(keys.contains(keys[at]));
        assert forall|k: Seq<char>| #[trigger] m.dom().contains(k) && p((k, m[k])) implies k
            == rows[at].0 || precedes(rows[at].0, k) by {
            assert(keys.contains(k));
            let i = choose|i: int| 0 <= i < keys.len() && keys[i] == k;
            assert(rows[i] == (k, m[k]));
            assert(p(rows[i]));
            if i > at {
                assert(precedes(keys[at], keys[i]));
            }
        }
    } else {
        assert forall|k: Seq<char>| #[trigger] m.dom().contains(k) implies !p((k, m[k])) by {
            assert(keys.contains(k));
            let i = choose|i: int| 0 <= i < keys.len() && keys[i] == k;
            assert(rows[i] == (k, m[k]));
            assert(!p(rows[i]));
        }
    }
}

/// The same, for a property of the keys alone.
pub proof fn lemma_first_key<T>(m: Map<Seq<char>, T>, p: spec_fn(Seq<char>) -> bool)
    requires
        m.dom().finite(),
    ensures
        match first_where(key_order(m), p) {
            Some(found) => {
                &&& m.dom().contains(found) && p(found)
                &&& forall|k: Seq<char>| #[trigger]
                    m.dom().contains(k) && p(k) ==> k == found || precedes(found, k)
            },
            None => forall|k: Seq<char>| #[trigger] m.dom().contains(k) ==> !p(k),
        },
{
    lemma_key_order(m);
    let keys = key_order(m);
    lemma_found(keys, p);
    if first_where(keys, p) is Some {
        let at = lemma_first_found(keys, p);
        assert(keys.contains(keys[at]));
        assert forall|k: Seq<char>| #[trigger] m.dom().contains(k) && p(k) implies k == keys[at]
            || precedes(keys[at], k) by {
            assert(keys.contains(k));
            let i = choose|i: int| 0 <= i < keys.len() && keys[i] == k;
            assert(p(keys[i]));
            if i > at {
                assert(precedes(keys[at], keys[i]));
            }
        }
    } else {
        assert forall|k: Seq<char>| #[trigger] m.dom().contains(k) implies !p(k) by {
            assert(keys.contains(k));
            let i = choose|i: int| 0 <= i < keys.len() && keys[i] == k;
            assert(!p(keys[i]));
        }
    }
}

} // verus!
