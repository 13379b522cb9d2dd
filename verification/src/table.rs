//! One table of the state database, held in memory: rows under string keys, walked in key order.

use crate::order::{
    increasing, key_order, lemma_before_chains, lemma_before_one_way, lemma_key_order_is,
    lemma_one_is_before, lemma_order_insert, lemma_order_remove, orders, precedes, str_precedes,
};
use crate::text::str_eq;
use vstd::prelude::*;

verus! {

/// The rows of one table.
pub struct Table<V> {
    rows: Vec<(String, V)>,
}

spec fn row_keys<V>(rows: Seq<(String, V)>) -> Seq<Seq<char>> {
    rows.map_values(|row: (String, V)| row.0@)
}

spec fn place<V>(rows: Seq<(String, V)>, key: Seq<char>) -> int {
    choose|i: int| 0 <= i < rows.len() && rows[i].0@ == key
}

spec fn rows_map<V: View>(rows: Seq<(String, V)>) -> Map<Seq<char>, V::V> {
    Map::new(
        |key: Seq<char>| row_keys(rows).contains(key),
        |key: Seq<char>| rows[place(rows, key)].1@,
    )
}

proof fn lemma_rows<V: View>(rows: Seq<(String, V)>)
    requires
        increasing(row_keys(rows)),
    ensures
        orders(row_keys(rows), rows_map(rows).dom()),
        key_order(rows_map(rows)) == row_keys(rows),
        forall|i: int| 0 <= i < rows.len() ==> #[trigger] rows_map(rows)[rows[i].0@] == rows[i].1@,
{
    let keys = row_keys(rows);
    assert forall|i: int| 0 <= i < rows.len() implies #[trigger] rows_map(rows)[rows[i].0@]
        == rows[i].1@ by {
        assert(keys[i] == rows[i].0@);
        assert(keys.contains(keys[i]));
        let j = place(rows, rows[i].0@);
        assert(keys[j] == keys[i]);
        if i < j {
            assert(precedes(keys[i], keys[j]));
            lemma_before_one_way(keys[i], keys[j]);
        } else if j < i {
            assert(precedes(keys[j], keys[i]));
            lemma_before_one_way(keys[j], keys[i]);
        }
    }
    assert(orders(keys, rows_map(rows).dom()));
    lemma_key_order_is(rows_map(rows), keys);
}

impl<V: View> View for Table<V> {
    type V = Map<Seq<char>, V::V>;

    closed spec fn view(&self) -> Map<Seq<char>, V::V> {
        rows_map(self.rows@)
    }
}

impl<V> Table<V> {
    #[verifier::type_invariant]
    spec fn sorted(&self) -> bool {
        increasing(row_keys(self.rows@))
    }
}

impl<V: View> Table<V> {
    /// A table without rows.
    pub fn new() -> (table: Self)
        ensures
            table@ == Map::<Seq<char>, V::V>::empty(),
    {
        let table = Table { rows: Vec::new() };
        proof {
            assert(table@ =~= Map::<Seq<char>, V::V>::empty());
        }
        table
    }

    /// The number of rows.
    pub fn len(&self) -> (n: usize)
        ensures
            n == key_order(self@).len(),
            orders(key_order(self@), self@.dom()),
    {
        proof {
            use_type_invariant(self);
            lemma_rows(self.rows@);
        }
        self.rows.len()
    }

    /// The key of the `i`-th row.
    pub fn key_at(&self, i: usize) -> (key: &String)
        requires
            i < key_order(self@).len(),
        ensures
            key@ == key_order(self@)[i as int],
    {
        proof {
            use_type_invariant(self);
            lemma_rows(self.rows@);
        }
        &self.rows[i].0
    }

    /// The value of the `i`-th row.
    pub fn value_at(&self, i: usize) -> (value: &V)
        requires
            i < key_order(self@).len(),
        ensures
            value@ == self@[key_order(self@)[i as int]],
    {
        proof {
            use_type_invariant(self);
            lemma_rows(self.rows@);
        }
        &self.rows[i].1
    }

    /// The place of the first row whose key is not before `key`.
    fn find(&self, key: &str) -> (at: usize)
        ensures
            at <= self.rows@.len(),
            forall|i: int| 0 <= i < at ==> precedes(#[trigger] row_keys(self.rows@)[i], key@),
            forall|i: int|
                at <= i < self.rows@.len() ==> !precedes(#[trigger] row_keys(self.rows@)[i], key@),
    {
        proof {
            use_type_invariant(self);
        }
        let ghost keys = row_keys(self.rows@);
        let mut at: usize = 0;
        while at < self.rows.len() && str_precedes(self.rows[at].0.as_str(), key)
            invariant
                keys == row_keys(self.rows@),
                at <= self.rows@.len(),
                forall|i: int| 0 <= i < at ==> precedes(#[trigger] keys[i], key@),
            decreases self.rows@.len() - at,
        {
            assert(keys[at as int] == self.rows@[at as int].0@);
            at += 1;
        }
        proof {
            assert forall|i: int| at <= i < self.rows@.len() implies !precedes(
                #[trigger] keys[i],
                key@,
            ) by {
                assert(keys[at as int] == self.rows@[at as int].0@);
                if i > at && precedes(keys[i], key@) {
                    lemma_before_chains(keys[at as int], keys[i], key@);
                }
            }
        }
        at
    }

    /// The value under `key`.
    pub fn get(&self, key: &str) -> (value: Option<&V>)
        ensures
            match value {
                Some(v) => self@.dom().contains(key@) && v@ == self@[key@],
                None => !self@.dom().contains(key@),
            },
    {
        let at: usize = self.find(key);
        let ghost keys = row_keys(self.rows@);
        proof {
            use_type_invariant(self);
            lemma_rows(self.rows@);
            crate::order::lemma_not_before_itself(key@);
        }
        if at < self.rows.len() && str_eq(self.rows[at].0.as_str(), key) {
            proof {
                assert(keys[at as int] == key@);
                assert(keys.contains(key@));
            }
            Some(&self.rows[at].1)
        } else {
            proof {
                if keys.contains(key@) {
                    let i = choose|i: int| 0 <= i < keys.len() && keys[i] == key@;
                    assert(i >= at);
                    assert(keys[at as int] == self.rows@[at as int].0@);
                    if i > at {
                        assert(precedes(keys[at as int], keys[i]));
                    }
                }
            }
            None
        }
    }

    /// Whether there is a row under `key`.
    pub fn contains(&self, key: &str) -> (r: bool)
        ensures
            r == self@.dom().contains(key@),
    {
        self.get(key).is_some()
    }

    /// Puts `value` under `key`, in place of what was there.
    pub fn insert(&mut self, key: String, value: V)
        ensures
            final(self)@ == old(self)@.insert(key@, value@),
    {
        proof {
            use_type_invariant(&*self);
        }
        let at: usize = self.find(key.as_str());
        let ghost old_map = self@;
        let mut rows: Vec<(String, V)> = Vec::new();
        std::mem::swap(&mut rows, &mut self.rows);
        let ghost before = rows@;
        let ghost keys = row_keys(before);
        let ghost k = key@;
        let ghost v = value@;
        proof {
            lemma_rows(before);
            crate::order::lemma_not_before_itself(k);
        }
        if at < rows.len() && str_eq(rows[at].0.as_str(), key.as_str()) {
            let old_row = rows.remove(at);
            rows.insert(at, (key, value));
            proof {
                assert(rows@ =~= before.update(at as int, (key, value)));
                assert(row_keys(rows@) =~= keys);
                lemma_rows(rows@);
                assert(keys[at as int] == k);
                assert(keys.contains(k));
                assert(rows_map(rows@) =~= old_map.insert(k, v)) by {
                    assert forall|x: Seq<char>| old_map.dom().contains(x) implies rows_map(
                        rows@,
                    )[x] == old_map.insert(k, v)[x] by {
                        assert(keys.contains(x));
                        let i = choose|i: int| 0 <= i < keys.len() && keys[i] == x;
                        assert(rows@[i].0@ == x);
                        assert(before[i].0@ == x);
                        assert(rows_map(rows@)[rows@[i].0@] == rows@[i].1@);
                        assert(rows_map(before)[before[i].0@] == before[i].1@);
                        if i != at {
                            if i < at {
                                assert(precedes(keys[i], keys[at as int]));
                                lemma_before_one_way(keys[i], keys[at as int]);
                            } else {
                                assert(precedes(keys[at as int], keys[i]));
                                lemma_before_one_way(keys[at as int], keys[i]);
                            }
                        }
                    }
                }
            }
        } else {
            proof {
                assert forall|i: int| at <= i < keys.len() implies precedes(
                    k,
                    #[trigger] keys[i],
                ) by {
                    assert(keys[at as int] == before[at as int].0@);
                    if i == at {
                        lemma_one_is_before(k, keys[i]);
                    } else {
                        lemma_one_is_before(k, keys[at as int]);
                        lemma_before_chains(k, keys[at as int], keys[i]);
                    }
                }
                lemma_order_insert(keys, rows_map(before).dom(), k, at as int);
            }
            rows.insert(at, (key, value));
            proof {
                assert(row_keys(rows@) =~= keys.insert(at as int, k));
                lemma_rows(rows@);
                assert(rows_map(rows@).dom() =~= old_map.insert(k, v).dom());
                assert(rows_map(rows@) =~= old_map.insert(k, v)) by {
                    assert forall|x: Seq<char>| rows_map(rows@).dom().contains(x) implies rows_map(
                        rows@,
                    )[x] == old_map.insert(k, v)[x] by {
                        let more = row_keys(rows@);
                        assert(more.contains(x));
                        let i = choose|i: int| 0 <= i < more.len() && more[i] == x;
                        assert(rows_map(rows@)[rows@[i].0@] == rows@[i].1@);
                        if i == at {
                        } else {
                            let j: int = if i < at { i } else { i - 1 };
                            assert(before[j] == rows@[i]);
                            assert(rows_map(before)[before[j].0@] == before[j].1@);
                            assert(keys[j] == x);
                            if j < at {
                                lemma_before_one_way(x, k);
                            } else {
                                lemma_before_one_way(k, x);
                            }
                        }
                    }
                }
            }
        }
        self.rows = rows;
    }

    /// Takes the row under `key` out, if there is one.
    pub fn remove(&mut self, key: &str)
        ensures
            final(self)@ == old(self)@.remove(key@),
    {
        proof {
            use_type_invariant(&*self);
        }
        let at: usize = self.find(key);
        let ghost old_map = self@;
        let mut rows: Vec<(String, V)> = Vec::new();
        std::mem::swap(&mut rows, &mut self.rows);
        let ghost before = rows@;
        let ghost keys = row_keys(before);
        let ghost k = key@;
        proof {
            lemma_rows(before);
            crate::order::lemma_not_before_itself(k);
        }
        if at < rows.len() && str_eq(rows[at].0.as_str(), key) {
            proof {
                assert(keys[at as int] == k);
                lemma_order_remove(keys, old_map.dom(), at as int);
            }
            let old_row = rows.remove(at);
            proof {
                assert(row_keys(rows@) =~= keys.remove(at as int));
                lemma_rows(rows@);
                assert(rows_map(rows@).dom() =~= old_map.remove(k).dom());
                assert(rows_map(rows@) =~= old_map.remove(k)) by {
                    assert forall|x: Seq<char>| rows_map(rows@).dom().contains(x) implies rows_map(
                        rows@,
                    )[x] == old_map.remove(k)[x] by {
                        let fewer = row_keys(rows@);
                        assert(fewer.contains(x));
                        let i = choose|i: int| 0 <= i < fewer.len() && fewer[i] == x;
                        assert(rows_map(rows@)[rows@[i].0@] == rows@[i].1@);
                        let j: int = if i < at { i } else { i + 1 };
                        assert(before[j] == rows@[i]);
                        assert(rows_map(before)[before[j].0@] == before[j].1@);
                    }
                }
            }
        } else {
            proof {
                if keys.contains(k) {
                    let i = choose|i: int| 0 <= i < keys.len() && keys[i] == k;
                    assert(i >= at);
                    assert(keys[at as int] == before[at as int].0@);
                    if i > at {
                        assert(precedes(keys[at as int], keys[i]));
                    }
                }
                assert(old_map.remove(k) =~= old_map);
            }
        }
        self.rows = rows;
    }
}

} // verus!
