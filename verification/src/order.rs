//! The order of keys: by Unicode code points from the left, a proper prefix first. It is the order
//! of the UTF-8 bytes as well.

use crate::text::chars_of;
use vstd::prelude::*;

verus! {

/// Whether `a` comes before `b`.
pub open spec fn precedes(a: Seq<char>, b: Seq<char>) -> bool
    decreases a.len(),
{
    if b.len() == 0 {
        false
    } else if a.len() == 0 {
        true
    } else if a[0] == b[0] {
        precedes(a.drop_first(), b.drop_first())
    } else {
        a[0] < b[0]
    }
}

/// Whether the string `a` comes before the string `b`.
pub fn str_precedes(a: &str, b: &str) -> (r: bool)
    ensures
        r == precedes(a@, b@),
{
    let x = chars_of(a);
    let y = chars_of(b);
    proof {
        assert(a@.skip(0) =~= a@);
        assert(b@.skip(0) =~= b@);
    }
    let mut i: usize = 0;
    while i < x.len() && i < y.len()
        invariant
            x@ == a@,
            y@ == b@,
            i <= x@.len(),
            i <= y@.len(),
            precedes(a@, b@) == precedes(a@.skip(i as int), b@.skip(i as int)),
        decreases x@.len() - i,
    {
        if x[i] != y[i] {
            return x[i] < y[i];
        }
        proof {
            assert(a@.skip(i as int).drop_first() =~= a@.skip(i + 1));
            assert(b@.skip(i as int).drop_first() =~= b@.skip(i + 1));
        }
        i += 1;
    }
    i < y.len()
}

/// Nothing comes before itself.
pub proof fn lemma_not_before_itself(a: Seq<char>)
    ensures
        !precedes(a, a),
    decreases a.len(),
{
    if a.len() > 0 {
        lemma_not_before_itself(a.drop_first());
    }
}

/// Of two different texts one comes before the other.
pub proof fn lemma_one_is_before(a: Seq<char>, b: Seq<char>)
    requires
        a != b,
    ensures
        precedes(a, b) || precedes(b, a),
    decreases a.len(),
{
    if a.len() > 0 && b.len() > 0 {
        if a[0] == b[0] {
            if a.drop_first() =~= b.drop_first() {
                assert(a =~= seq![a[0]] + a.drop_first());
                assert(b =~= seq![b[0]] + b.drop_first());
            }
            lemma_one_is_before(a.drop_first(), b.drop_first());
        }
    } else if a.len() == 0 && b.len() == 0 {
        assert(a =~= b);
    }
}

/// The order is transitive.
pub proof fn lemma_before_chains(a: Seq<char>, b: Seq<char>, c: Seq<char>)
    requires
        precedes(a, b),
        precedes(b, c),
    ensures
        precedes(a, c),
    decreases a.len(),
{
    if a.len() > 0 && a[0] == b[0] && b[0] == c[0] {
        lemma_before_chains(a.drop_first(), b.drop_first(), c.drop_first());
    }
}

/// The order runs one way only.
pub proof fn lemma_before_one_way(a: Seq<char>, b: Seq<char>)
    requires
        precedes(a, b),
    ensures
        !precedes(b, a),
        a != b,
{
    lemma_not_before_itself(a);
    if precedes(b, a) {
        lemma_before_chains(a, b, a);
    }
}

/// A common beginning does not matter.
pub proof fn lemma_before_after_prefix(p: Seq<char>, a: Seq<char>, b: Seq<char>)
    ensures
        precedes(p + a, p + b) == precedes(a, b),
    decreases p.len(),
{
    if p.len() == 0 {
        assert(p + a =~= a);
        assert(p + b =~= b);
    } else {
        lemma_before_after_prefix(p.drop_first(), a, b);
        assert((p + a).drop_first() =~= p.drop_first() + a);
        assert((p + b).drop_first() =~= p.drop_first() + b);
    }
}

/// Among texts of one length, the last character decides where the rest is equal, and only there.
pub proof fn lemma_before_by_last(a: Seq<char>, b: Seq<char>)
    requires
        a.len() == b.len() > 0,
    ensures
        precedes(a, b) == (precedes(a.drop_last(), b.drop_last()) || (a.drop_last() == b.drop_last()
            && a.last() < b.last())),
    decreases a.len(),
{
    if a.len() == 1 {
        assert(a.drop_last() =~= b.drop_last());
        assert(a.drop_first() =~= b.drop_first());
        lemma_not_before_itself(a.drop_first());
    } else {
        let ta = a.drop_first();
        let tb = b.drop_first();
        lemma_before_by_last(ta, tb);
        assert(ta.drop_last() =~= a.drop_last().drop_first());
        assert(tb.drop_last() =~= b.drop_last().drop_first());
        if a[0] == b[0] {
            if ta.drop_last() == tb.drop_last() {
                assert(a.drop_last() =~= seq![a[0]] + ta.drop_last());
                assert(b.drop_last() =~= seq![b[0]] + tb.drop_last());
            }
        } else {
            assert(a.drop_last()[0] != b.drop_last()[0]);
        }
    }
}

/// Every key comes before the ones after it.
pub open spec fn increasing(keys: Seq<Seq<char>>) -> bool {
    forall|i: int, j: int|
        0 <= i < j < keys.len() ==> precedes(#[trigger] keys[i], #[trigger] keys[j])
}

/// `keys` are exactly the members of `dom`, each once, in order.
pub open spec fn orders(keys: Seq<Seq<char>>, dom: Set<Seq<char>>) -> bool {
    &&& increasing(keys)
    &&& forall|k: Seq<char>| #[trigger] dom.contains(k) <==> keys.contains(k)
}

/// The keys of `m` in order.
pub open spec fn key_order<T>(m: Map<Seq<char>, T>) -> Seq<Seq<char>> {
    choose|keys: Seq<Seq<char>>| orders(keys, m.dom())
}

proof fn lemma_last_is_last(a: Seq<Seq<char>>, k: Seq<char>)
    requires
        increasing(a),
        a.contains(k),
    ensures
        k == a.last() || precedes(k, a.last()),
{
    let i = choose|i: int| 0 <= i < a.len() && a[i] == k;
    if i < a.len() - 1 {
        assert(precedes(a[i], a[a.len() - 1]));
    }
}

/// A set of keys is ordered in one way.
pub proof fn lemma_order_unique(a: Seq<Seq<char>>, b: Seq<Seq<char>>, dom: Set<Seq<char>>)
    requires
        orders(a, dom),
        orders(b, dom),
    ensures
        a == b,
    decreases a.len(),
{
    if a.len() == 0 {
        if b.len() > 0 {
            assert(b.contains(b[0]));
            assert(dom.contains(b[0]));
        }
        assert(a =~= b);
    } else {
        let k = a.last();
        assert(a.contains(a[a.len() - 1]));
        assert(dom.contains(k));
        assert(b.contains(k));
        let l = b.last();
        assert(b.contains(b[b.len() - 1]));
        assert(dom.contains(l));
        lemma_last_is_last(a, l);
        lemma_last_is_last(b, k);
        if k != l {
            lemma_before_one_way(l, k);
        }
        lemma_order_drop_last(a, dom);
        lemma_order_drop_last(b, dom);
        lemma_order_unique(a.drop_last(), b.drop_last(), dom.remove(k));
        assert(a =~= a.drop_last().push(k));
        assert(b =~= b.drop_last().push(k));
    }
}

proof fn lemma_order_drop_last(a: Seq<Seq<char>>, dom: Set<Seq<char>>)
    requires
        orders(a, dom),
        a.len() > 0,
    ensures
        orders(a.drop_last(), dom.remove(a.last())),
{
    let k = a.last();
    let front = a.drop_last();
    assert forall|x: Seq<char>| #[trigger]
        dom.remove(k).contains(x) <==> front.contains(x) by {
        if front.contains(x) {
            let i = choose|i: int| 0 <= i < front.len() && front[i] == x;
            assert(a[i] == x);
            assert(a.contains(x));
            assert(precedes(a[i], a[a.len() - 1]));
            lemma_before_one_way(x, k);
        }
        if dom.remove(k).contains(x) {
            assert(a.contains(x));
            let i = choose|i: int| 0 <= i < a.len() && a[i] == x;
            assert(front[i] == x);
        }
    }
}

/// What orders the keys of `m` is `key_order(m)`.
pub proof fn lemma_key_order_is<T>(m: Map<Seq<char>, T>, keys: Seq<Seq<char>>)
    requires
        orders(keys, m.dom()),
    ensures
        key_order(m) == keys,
        orders(key_order(m), m.dom()),
{
    lemma_order_unique(key_order(m), keys, m.dom());
}

/// Where a new key goes among ordered ones.
pub proof fn lemma_place_of(keys: Seq<Seq<char>>, k: Seq<char>) -> (at: int)
    requires
        increasing(keys),
        !keys.contains(k),
    ensures
        0 <= at <= keys.len(),
        forall|i: int| 0 <= i < at ==> precedes(#[trigger] keys[i], k),
        forall|i: int| at <= i < keys.len() ==> precedes(k, #[trigger] keys[i]),
    decreases keys.len(),
{
    if keys.len() == 0 {
        0
    } else {
        let front = keys.drop_last();
        assert(keys.contains(keys[keys.len() - 1]));
        if precedes(keys.last(), k) {
            assert forall|i: int| 0 <= i < keys.len() implies precedes(#[trigger] keys[i], k) by {
                if i < keys.len() - 1 {
                    lemma_before_chains(keys[i], keys[keys.len() - 1], k);
                }
            }
            keys.len() as int
        } else {
            lemma_one_is_before(keys.last(), k);
            assert(!front.contains(k)) by {
                if front.contains(k) {
                    let i = choose|i: int| 0 <= i < front.len() && front[i] == k;
                    assert(keys[i] == k);
                }
            }
            let at = lemma_place_of(front, k);
            assert forall|i: int| 0 <= i < at implies precedes(#[trigger] keys[i], k) by {
                assert(front[i] == keys[i]);
            }
            assert forall|i: int| at <= i < keys.len() implies precedes(k, #[trigger] keys[i]) by {
                if i < front.len() {
                    assert(front[i] == keys[i]);
                }
            }
            at
        }
    }
}

/// Ordered keys with a new key at its place are ordered.
pub proof fn lemma_order_insert(
    keys: Seq<Seq<char>>,
    dom: Set<Seq<char>>,
    k: Seq<char>,
    at: int,
)
    requires
        orders(keys, dom),
        0 <= at <= keys.len(),
        forall|i: int| 0 <= i < at ==> precedes(#[trigger] keys[i], k),
        forall|i: int| at <= i < keys.len() ==> precedes(k, #[trigger] keys[i]),
    ensures
        orders(keys.insert(at, k), dom.insert(k)),
{
    let more = keys.insert(at, k);
    assert forall|i: int, j: int| 0 <= i < j < more.len() implies precedes(
        #[trigger] more[i],
        #[trigger] more[j],
    ) by {
        let x: int = if i < at { i } else { i - 1 };
        let y: int = if j < at { j } else { j - 1 };
        if i != at && j != at {
            assert(precedes(keys[x], keys[y]));
        } else if i == at {
            assert(precedes(k, keys[y]));
        } else {
            assert(precedes(keys[x], k));
        }
    }
    assert forall|x: Seq<char>| #[trigger]
        dom.insert(k).contains(x) <==> more.contains(x) by {
        if more.contains(x) {
            let i = choose|i: int| 0 <= i < more.len() && more[i] == x;
            if i < at {
                assert(keys[i] == x);
            } else if i > at {
                assert(keys[i - 1] == x);
            }
        }
        if dom.insert(k).contains(x) {
            if x == k {
                assert(more[at] == x);
            } else {
                assert(keys.contains(x));
                let i = choose|i: int| 0 <= i < keys.len() && keys[i] == x;
                if i < at {
                    assert(more[i] == x);
                } else {
                    assert(more[i + 1] == x);
                }
            }
        }
    }
}

/// Ordered keys without one of them are ordered.
pub proof fn lemma_order_remove(keys: Seq<Seq<char>>, dom: Set<Seq<char>>, at: int)
    requires
        orders(keys, dom),
        0 <= at < keys.len(),
    ensures
        orders(keys.remove(at), dom.remove(keys[at])),
{
    let fewer = keys.remove(at);
    let k = keys[at];
    assert forall|i: int, j: int| 0 <= i < j < fewer.len() implies precedes(
        #[trigger] fewer[i],
        #[trigger] fewer[j],
    ) by {
        let x: int = if i < at { i } else { i + 1 };
        let y: int = if j < at { j } else { j + 1 };
        assert(precedes(keys[x], keys[y]));
    }
    assert forall|x: Seq<char>| #[trigger]
        dom.remove(k).contains(x) <==> fewer.contains(x) by {
        if fewer.contains(x) {
            let i = choose|i: int| 0 <= i < fewer.len() && fewer[i] == x;
            let y: int = if i < at { i } else { i + 1 };
            assert(keys[y] == x);
            assert(keys.contains(x));
            if y < at {
                assert(precedes(keys[y], keys[at]));
                lemma_before_one_way(x, k);
            } else {
                assert(precedes(keys[at], keys[y]));
                lemma_before_one_way(k, x);
            }
        }
        if dom.remove(k).contains(x) {
            assert(keys.contains(x));
            let i = choose|i: int| 0 <= i < keys.len() && keys[i] == x;
            if i < at {
                assert(fewer[i] == x);
            } else {
                assert(fewer[i - 1] == x);
            }
        }
    }
}

/// Every finite set of keys has an order.
pub proof fn lemma_finite_has_order(dom: Set<Seq<char>>) -> (keys: Seq<Seq<char>>)
    requires
        dom.finite(),
    ensures
        orders(keys, dom),
    decreases dom.len(),
{
    if dom.len() == 0 {
        let keys = Seq::<Seq<char>>::empty();
        assert(dom =~= Set::empty());
        keys
    } else {
        let k = dom.choose();
        let rest = lemma_finite_has_order(dom.remove(k));
        assert(!rest.contains(k)) by {
            assert(!dom.remove(k).contains(k));
        }
        let at = lemma_place_of(rest, k);
        lemma_order_insert(rest, dom.remove(k), k, at);
        assert(dom.remove(k).insert(k) =~= dom);
        rest.insert(at, k)
    }
}

/// The key order of a finite map lists its keys.
pub proof fn lemma_key_order<T>(m: Map<Seq<char>, T>)
    requires
        m.dom().finite(),
    ensures
        orders(key_order(m), m.dom()),
{
    let keys = lemma_finite_has_order(m.dom());
    lemma_key_order_is(m, keys);
}

/// A text comes before another exactly when it is a proper beginning of it, or has the smaller
/// character at the first place where the two differ.
pub proof fn law_order_is_by_the_first_difference(a: Seq<char>, b: Seq<char>, n: int)
    requires
        0 <= n <= a.len(),
        n <= b.len(),
        forall|i: int| 0 <= i < n ==> #[trigger] a[i] == b[i],
    ensures
        n < a.len() && n < b.len() && a[n] != b[n] ==> precedes(a, b) == (a[n] < b[n]),
        n == a.len() ==> precedes(a, b) == (n < b.len()),
        n == b.len() ==> !precedes(a, b),
    decreases n,
{
    if n > 0 {
        let ta = a.drop_first();
        let tb = b.drop_first();
        assert(a[0] == b[0]);
        assert forall|i: int| 0 <= i < n - 1 implies #[trigger] ta[i] == tb[i] by {
            assert(a[i + 1] == b[i + 1]);
        }
        law_order_is_by_the_first_difference(ta, tb, n - 1);
    }
}

/// The keys of a table are listed in their order: each key of the table once, no other, and a
/// smaller one before a greater.
pub proof fn law_keys_are_listed_in_order<T>(m: Map<Seq<char>, T>, k: Seq<char>, i: int, j: int)
    requires
        m.dom().finite(),
    ensures
        key_order(m).contains(k) <==> m.dom().contains(k),
        0 <= i < j < key_order(m).len() ==> precedes(key_order(m)[i], key_order(m)[j]),
{
    lemma_key_order(m);
}

} // verus!
