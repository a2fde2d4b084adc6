//! A table keyed by strings, with at most one row per key.
//!
//! The rows are kept in insertion order in a vector; the table is viewed as
//! the finite map from the characters of a key to the view of its value.

use vstd::prelude::*;

verus! {

/// A finite map from strings to values.
pub struct Table<V: View> {
    rows: Vec<(String, V)>,
}

/// The position of `key` among `keys`, if it occurs.
pub open spec fn position_of(keys: Seq<Seq<char>>, key: Seq<char>) -> Option<int> {
    if exists|i: int| 0 <= i < keys.len() && keys[i] == key {
        Some(choose|i: int| 0 <= i < keys.len() && keys[i] == key)
    } else {
        None
    }
}

/// No key occurs at two positions.
pub open spec fn distinct_keys(keys: Seq<Seq<char>>) -> bool {
    forall|i: int, j: int|
        0 <= i < keys.len() && 0 <= j < keys.len() && keys[i] == keys[j] ==> i == j
}

/// The map that holds, for each key of `keys`, the value at the key's position.
pub open spec fn rows_to_map<T>(keys: Seq<Seq<char>>, values: Seq<T>) -> Map<Seq<char>, T> {
    Map::new(
        |k: Seq<char>| position_of(keys, k) is Some,
        |k: Seq<char>| values[position_of(keys, k).unwrap()],
    )
}

/// Every row is in the map, and every key of the map is the key of a row.
pub proof fn lemma_rows_to_map<T>(keys: Seq<Seq<char>>, values: Seq<T>)
    requires
        keys.len() == values.len(),
        distinct_keys(keys),
    ensures
        rows_to_map(keys, values).dom().finite(),
        rows_to_map(keys, values).dom() == keys.to_set(),
        rows_to_map(keys, values).dom().len() == keys.len(),
        forall|i: int|
            0 <= i < keys.len() ==> {
                &&& #[trigger] rows_to_map(keys, values).contains_key(keys[i])
                &&& rows_to_map(keys, values)[keys[i]] == values[i]
            },
        forall|k: Seq<char>| #[trigger]
            rows_to_map(keys, values).contains_key(k) ==> keys.contains(k),
{
    let m = rows_to_map(keys, values);
    assert forall|i: int| 0 <= i < keys.len() implies {
        &&& #[trigger] m.contains_key(keys[i])
        &&& m[keys[i]] == values[i]
    } by {
        assert(position_of(keys, keys[i]) == Some(i));
    }
    assert forall|k: Seq<char>| #[trigger] m.contains_key(k) implies keys.contains(k) by {
        let i = position_of(keys, k).unwrap();
        assert(keys[i] == k);
    }
    assert(m.dom() =~= keys.to_set());
    vstd::seq_lib::seq_to_set_is_finite(keys);
    keys.unique_seq_to_set();
}

impl<V: View> Table<V> {
    /// The keys in row order, each by its characters.
    pub closed spec fn key_seq(&self) -> Seq<Seq<char>> {
        Seq::new(self.rows@.len(), |i: int| self.rows@[i].0@)
    }

    /// The values in row order, each by its view.
    pub closed spec fn value_seq(&self) -> Seq<V::V> {
        Seq::new(self.rows@.len(), |i: int| self.rows@[i].1@)
    }

    /// No two rows hold the same key. Every constructor establishes this and
    /// every method keeps it.
    pub closed spec fn wf(&self) -> bool {
        distinct_keys(self.key_seq())
    }

    /// The rows as a map.
    pub closed spec fn view(&self) -> Map<Seq<char>, V::V> {
        rows_to_map(self.key_seq(), self.value_seq())
    }

    /// An empty table.
    pub fn new() -> (t: Self)
        ensures
            t.wf(),
            t@ == Map::<Seq<char>, V::V>::empty(),
    {
        let t = Table { rows: Vec::new() };
        assert(t.key_seq() =~= Seq::<Seq<char>>::empty());
        assert(t@ =~= Map::<Seq<char>, V::V>::empty());
        t
    }

    /// The number of rows.
    pub fn len(&self) -> (n: usize)
        requires
            self.wf(),
        ensures
            n == self@.dom().len(),
            self@.dom().finite(),
    {
        proof {
            lemma_rows_to_map(self.key_seq(), self.value_seq());
        }
        self.rows.len()
    }

    /// The row that holds `key`, if there is one.
    fn find(&self, key: &String) -> (r: Option<usize>)
        requires
            self.wf(),
        ensures
            match r {
                Some(i) => i < self.rows@.len() && self.rows@[i as int].0@ == key@,
                None => !self@.contains_key(key@),
            },
    {
        proof {
            lemma_rows_to_map(self.key_seq(), self.value_seq());
        }
        let mut i: usize = 0;
        while i < self.rows.len()
            invariant
                i <= self.rows@.len(),
                forall|j: int| 0 <= j < i ==> self.rows@[j].0@ != key@,
            decreases self.rows@.len() - i,
        {
            if self.rows[i].0 == *key {
                return Some(i);
            }
            i += 1;
        }
        proof {
            if self@.contains_key(key@) {
                let j = self.key_seq().index_of(key@);
                assert(self.key_seq()[j] == key@);
            }
        }
        None
    }

    /// Whether the table holds a row for `key`.
    pub fn contains_key(&self, key: &str) -> (b: bool)
        requires
            self.wf(),
        ensures
            b == self@.contains_key(key@),
    {
        let k = key.to_owned();
        proof {
            lemma_rows_to_map(self.key_seq(), self.value_seq());
        }
        match self.find(&k) {
            Some(i) => {
                assert(self.key_seq()[i as int] == key@);
                true
            },
            None => false,
        }
    }

    /// The value stored under `key`, if there is one.
    pub fn get(&self, key: &str) -> (r: Option<&V>)
        requires
            self.wf(),
        ensures
            match r {
                Some(v) => self@.contains_key(key@) && v@ == self@[key@],
                None => !self@.contains_key(key@),
            },
    {
        let k = key.to_owned();
        proof {
            lemma_rows_to_map(self.key_seq(), self.value_seq());
        }
        match self.find(&k) {
            Some(i) => {
                assert(self.key_seq()[i as int] == key@);
                assert(self.value_seq()[i as int] == self.rows@[i as int].1@);
                Some(&self.rows[i].1)
            },
            None => None,
        }
    }

    /// Stores `value` under `key`, in place of what the key held before.
    pub fn insert(&mut self, key: String, value: V)
        requires
            old(self).wf(),
        ensures
            final(self).wf(),
            final(self)@ == old(self)@.insert(key@, value@),
    {
        proof {
            lemma_rows_to_map(self.key_seq(), self.value_seq());
        }
        let ghost old_keys = self.key_seq();
        let ghost old_values = self.value_seq();
        let ghost k = key@;
        let ghost v = value@;
        match self.find(&key) {
            Some(i) => {
                self.rows.set(i, (key, value));
                proof {
                    assert(self.key_seq() =~= old_keys);
                    assert(self.value_seq() =~= old_values.update(i as int, v));
                    lemma_rows_to_map(self.key_seq(), self.value_seq());
                    assert(old_keys[i as int] == k);
                    assert forall|q: Seq<char>| #[trigger]
                        self@.contains_key(q) implies old(self)@.insert(k, v).contains_key(q)
                        && self@[q] == old(self)@.insert(k, v)[q] by {
                        let j = old_keys.index_of(q);
                        assert(old_keys[j] == q);
                    }
                    assert forall|q: Seq<char>| #[trigger]
                        old(self)@.insert(k, v).contains_key(q) implies self@.contains_key(q) by {
                        if q != k {
                            let j = old_keys.index_of(q);
                            assert(self.key_seq()[j] == q);
                        }
                    }
                    assert(self@ =~= old(self)@.insert(k, v));
                }
            },
            None => {
                self.rows.push((key, value));
                proof {
                    assert(self.key_seq() =~= old_keys.push(k));
                    assert(self.value_seq() =~= old_values.push(v));
                    assert(distinct_keys(self.key_seq())) by {
                        assert forall|a: int, b: int|
                            0 <= a < self.key_seq().len() && 0 <= b < self.key_seq().len()
                                && self.key_seq()[a] == self.key_seq()[b] implies a == b by {
                            if a < old_keys.len() {
                                assert(old(self)@.contains_key(old_keys[a]));
                            }
                            if b < old_keys.len() {
                                assert(old(self)@.contains_key(old_keys[b]));
                            }
                        }
                    }
                    lemma_rows_to_map(self.key_seq(), self.value_seq());
                    assert forall|q: Seq<char>| #[trigger]
                        self@.contains_key(q) implies old(self)@.insert(k, v).contains_key(q)
                        && self@[q] == old(self)@.insert(k, v)[q] by {
                        let j = self.key_seq().index_of(q);
                        assert(self.key_seq()[j] == q);
                        if j < old_keys.len() {
                            assert(old(self)@.contains_key(old_keys[j]));
                        }
                    }
                    assert forall|q: Seq<char>| #[trigger]
                        old(self)@.insert(k, v).contains_key(q) implies self@.contains_key(q) by {
                        if q != k {
                            let j = old_keys.index_of(q);
                            assert(self.key_seq()[j] == q);
                        } else {
                            assert(self.key_seq()[old_keys.len() as int] == k);
                        }
                    }
                    assert(self@ =~= old(self)@.insert(k, v));
                }
            },
        }
    }

    /// Removes the row of `key` and returns its value, if there was one.
    pub fn remove(&mut self, key: &str) -> (r: Option<V>)
        requires
            old(self).wf(),
        ensures
            final(self).wf(),
            final(self)@ == old(self)@.remove(key@),
            match r {
                Some(v) => old(self)@.contains_key(key@) && v@ == old(self)@[key@],
                None => !old(self)@.contains_key(key@),
            },
    {
        let k = key.to_owned();
        proof {
            lemma_rows_to_map(self.key_seq(), self.value_seq());
        }
        let ghost old_keys = self.key_seq();
        let ghost old_values = self.value_seq();
        match self.find(&k) {
            Some(i) => {
                let row = self.rows.remove(i);
                proof {
                    let n = i as int;
                    assert(old_keys[n] == key@);
                    assert(self.key_seq() =~= old_keys.remove(n));
                    assert(self.value_seq() =~= old_values.remove(n));
                    assert(distinct_keys(self.key_seq())) by {
                        assert forall|a: int, b: int|
                            0 <= a < self.key_seq().len() && 0 <= b < self.key_seq().len()
                                && self.key_seq()[a] == self.key_seq()[b] implies a == b by {
                            let a0 = if a < n { a } else { a + 1 };
                            let b0 = if b < n { b } else { b + 1 };
                            assert(old_keys[a0] == old_keys[b0]);
                        }
                    }
                    lemma_rows_to_map(self.key_seq(), self.value_seq());
                    assert forall|q: Seq<char>| #[trigger]
                        self@.contains_key(q) implies old(self)@.remove(key@).contains_key(q)
                        && self@[q] == old(self)@.remove(key@)[q] by {
                        let j = self.key_seq().index_of(q);
                        assert(self.key_seq()[j] == q);
                        let j0 = if j < n { j } else { j + 1 };
                        assert(old_keys[j0] == q);
                        assert(old(self)@.contains_key(old_keys[j0]));
                    }
                    assert forall|q: Seq<char>| #[trigger]
                        old(self)@.remove(key@).contains_key(q) implies self@.contains_key(q) by {
                        let j = old_keys.index_of(q);
                        assert(old_keys[j] == q);
                        let j1 = if j < n { j } else { j - 1 };
                        assert(self.key_seq()[j1] == q);
                    }
                    assert(self@ =~= old(self)@.remove(key@));
                    assert(old_values[n] == row.1@);
                }
                Some(row.1)
            },
            None => {
                proof {
                    assert(self@ =~= old(self)@.remove(key@));
                }
                None
            },
        }
    }

    /// The keys of all rows, each once.
    pub fn keys(&self) -> (ks: Vec<String>)
        requires
            self.wf(),
        ensures
            ks@.len() == self@.dom().len(),
            forall|i: int| 0 <= i < ks@.len() ==> #[trigger] self@.contains_key(ks@[i]@),
            forall|k: Seq<char>| #[trigger]
                self@.contains_key(k) ==> exists|i: int| 0 <= i < ks@.len() && ks@[i]@ == k,
    {
        proof {
            lemma_rows_to_map(self.key_seq(), self.value_seq());
        }
        let mut ks: Vec<String> = Vec::new();
        let mut i: usize = 0;
        while i < self.rows.len()
            invariant
                i <= self.rows@.len(),
                ks@.len() == i,
                forall|j: int| 0 <= j < i ==> #[trigger] ks@[j]@ == self.rows@[j].0@,
            decreases self.rows@.len() - i,
        {
            ks.push(self.rows[i].0.clone());
            i += 1;
        }
        proof {
            assert forall|j: int| 0 <= j < ks@.len() implies #[trigger] self@.contains_key(
                ks@[j]@,
            ) by {
                assert(self.key_seq()[j] == ks@[j]@);
            }
            assert forall|k: Seq<char>| #[trigger] self@.contains_key(k) implies exists|j: int|
                0 <= j < ks@.len() && ks@[j]@ == k by {
                let j = self.key_seq().index_of(k);
                assert(self.key_seq()[j] == k);
                assert(ks@[j]@ == k);
            }
        }
        ks
    }
}

} // verus!
