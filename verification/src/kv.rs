//! A map from strings to values, kept as a list of entries with distinct
//! keys; the store behind the exercises' configuration objects, key-value
//! databases and named counters.

use vstd::prelude::*;

verus! {

/// A map from string keys to values.
pub struct StrMap<V> {
    entries: Vec<(String, V)>,
}

impl<V> StrMap<V> {
    /// The keys, in entry order.
    pub closed spec fn keys(&self) -> Seq<Seq<char>> {
        self.entries@.map_values(|e: (String, V)| e.0@)
    }

    #[verifier::type_invariant]
    closed spec fn distinct_keys(&self) -> bool {
        self.keys().no_duplicates()
    }

    closed spec fn index_of(&self, k: Seq<char>) -> int {
        choose|i: int| 0 <= i < self.keys().len() && self.keys()[i] == k
    }
}

impl<V> View for StrMap<V> {
    type V = Map<Seq<char>, V>;

    closed spec fn view(&self) -> Map<Seq<char>, V> {
        Map::new(|k: Seq<char>| self.keys().contains(k), |k: Seq<char>| self.entries@[self.index_of(k)].1)
    }
}

impl<V> StrMap<V> {
    proof fn lemma_view_at(&self, i: int)
        requires
            self.keys().no_duplicates(),
            0 <= i < self.entries@.len(),
        ensures
            self@.contains_key(self.keys()[i]),
            self@[self.keys()[i]] == self.entries@[i].1,
    {
        assert(self.keys().contains(self.keys()[i]));
        let j = self.index_of(self.keys()[i]);
        assert(0 <= j < self.keys().len() && self.keys()[j] == self.keys()[i]);
    }

    proof fn lemma_len(&self)
        requires
            self.keys().no_duplicates(),
        ensures
            self@.dom().finite(),
            self@.dom().len() == self.entries@.len(),
    {
        assert(self@.dom() =~= self.keys().to_set());
        self.keys().unique_seq_to_set();
        vstd::seq_lib::seq_to_set_is_finite(self.keys());
    }

    /// An empty map.
    pub fn new() -> (r: Self)
        ensures
            r@ == Map::<Seq<char>, V>::empty(),
    {
        let r = StrMap { entries: Vec::new() };
        assert(r.keys() =~= Seq::<Seq<char>>::empty());
        assert(r@ =~= Map::<Seq<char>, V>::empty());
        r
    }

    /// The index of the entry with key `key`, if there is one.
    fn find(&self, key: &String) -> (r: Option<usize>)
        ensures
            r matches Some(i) ==> i < self.entries@.len() && self.keys()[i as int] == key@,
            r is None ==> !self.keys().contains(key@),
    {
        let mut i: usize = 0;
        while i < self.entries.len()
            invariant
                i <= self.entries@.len(),
                forall|j: int| 0 <= j < i ==> self.keys()[j] != key@,
            decreases self.entries@.len() - i,
        {
            if self.entries[i].0 == *key {
                return Some(i);
            }
            i = i + 1;
        }
        None
    }

    /// The value stored under `key`, if any.
    pub fn get(&self, key: &str) -> (r: Option<&V>)
        ensures
            r is None <==> !self@.contains_key(key@),
            r matches Some(v) ==> *v == self@[key@],
    {
        proof {
            use_type_invariant(self);
        }
        let k = key.to_owned();
        match self.find(&k) {
            Some(i) => {
                proof {
                    self.lemma_view_at(i as int);
                }
                Some(&self.entries[i].1)
            },
            None => None,
        }
    }

    /// `true` when `key` is present.
    pub fn contains_key(&self, key: &str) -> (r: bool)
        ensures
            r == self@.contains_key(key@),
    {
        let k = key.to_owned();
        self.find(&k).is_some()
    }

    /// Stores `value` under `key`, replacing any previous value.
    pub fn insert(&mut self, key: &str, value: V)
        ensures
            final(self)@ == old(self)@.insert(key@, value),
            old(self)@.dom().finite(),
            final(self)@.dom().finite(),
    {
        proof {
            use_type_invariant(&*self);
            self.lemma_len();
        }
        let k = key.to_owned();
        match self.find(&k) {
            Some(i) => {
                let ghost old_keys = self.keys();
                let mut entries: Vec<(String, V)> = Vec::new();
                std::mem::swap(&mut entries, &mut self.entries);
                entries.set(i, (k, value));
                proof {
                    assert(entries@.map_values(|e: (String, V)| e.0@) =~= old_keys);
                }
                self.entries = entries;
                proof {
                    assert(self.keys() =~= old_keys);
                    assert forall|q: Seq<char>| #[trigger] self@.contains_key(q) implies self@[q] == old(self)@.insert(
                        key@,
                        value,
                    )[q] by {
                        let j = choose|j: int| 0 <= j < self.keys().len() && self.keys()[j] == q;
                        self.lemma_view_at(j);
                        old(self).lemma_view_at(j);
                    }
                    assert(self@ =~= old(self)@.insert(key@, value));
                }
            },
            None => {
                let ghost old_keys = self.keys();
                let mut entries: Vec<(String, V)> = Vec::new();
                std::mem::swap(&mut entries, &mut self.entries);
                entries.push((k, value));
                proof {
                    assert(entries@.map_values(|e: (String, V)| e.0@) =~= old_keys.push(key@));
                    assert(entries@.map_values(|e: (String, V)| e.0@).no_duplicates());
                }
                self.entries = entries;
                proof {
                    assert(self.keys() =~= old_keys.push(key@));
                    assert(self.keys().no_duplicates());
                    let n = old_keys.len() as int;
                    self.lemma_view_at(n);
                    assert forall|q: Seq<char>| self@.contains_key(q) <==> old(self)@.insert(key@, value).contains_key(q) by {
                        if self@.contains_key(q) {
                            let j = choose|j: int| 0 <= j < self.keys().len() && self.keys()[j] == q;
                            if j < n {
                                assert(old_keys[j] == q);
                                assert(old_keys.contains(q));
                            }
                        }
                        if old(self)@.contains_key(q) {
                            let j = choose|j: int| 0 <= j < old_keys.len() && old_keys[j] == q;
                            assert(self.keys()[j] == q);
                        }
                    }
                    assert forall|q: Seq<char>| #[trigger] self@.contains_key(q) implies self@[q] == old(self)@.insert(
                        key@,
                        value,
                    )[q] by {
                        let j = choose|j: int| 0 <= j < self.keys().len() && self.keys()[j] == q;
                        self.lemma_view_at(j);
                        if j < n {
                            old(self).lemma_view_at(j);
                        }
                    }
                    assert(self@ =~= old(self)@.insert(key@, value));
                }
            },
        }
    }

    /// Removes `key`; returns whether it was present.
    pub fn remove(&mut self, key: &str) -> (existed: bool)
        ensures
            existed == old(self)@.contains_key(key@),
            final(self)@ == old(self)@.remove(key@),
            old(self)@.dom().finite(),
            final(self)@.dom().finite(),
    {
        proof {
            use_type_invariant(&*self);
            self.lemma_len();
        }
        let k = key.to_owned();
        match self.find(&k) {
            Some(i) => {
                let ghost old_keys = self.keys();
                let ghost n = old_keys.len() as int;
                let mut entries: Vec<(String, V)> = Vec::new();
                std::mem::swap(&mut entries, &mut self.entries);
                let _ = entries.swap_remove(i);
                proof {
                    let nk = entries@.map_values(|e: (String, V)| e.0@);
                    assert(nk =~= old_keys.update(i as int, old_keys.last()).drop_last());
                    assert forall|a: int, b: int|
                        0 <= a < nk.len() && 0 <= b < nk.len() && a != b
                            implies nk[a] != nk[b] by {
                        let oa = if a == i { n - 1 } else { a };
                        let ob = if b == i { n - 1 } else { b };
                        assert(nk[a] == old_keys[oa]);
                        assert(nk[b] == old_keys[ob]);
                    }
                    assert(nk.no_duplicates());
                }
                self.entries = entries;
                proof {
                    assert(self.keys() =~= old_keys.update(i as int, old_keys.last()).drop_last());
                    assert forall|q: Seq<char>| self@.contains_key(q) <==> old(self)@.remove(key@).contains_key(q) by {
                        if self@.contains_key(q) {
                            let j = choose|j: int| 0 <= j < self.keys().len() && self.keys()[j] == q;
                            let oj = if j == i { n - 1 } else { j };
                            assert(old_keys[oj] == q);
                            assert(old_keys.contains(q));
                        }
                        if old(self)@.remove(key@).contains_key(q) {
                            let oj = choose|j: int| 0 <= j < old_keys.len() && old_keys[j] == q;
                            let j = if oj == n - 1 { i as int } else { oj };
                            assert(self.keys()[j] == q);
                        }
                    }
                    assert forall|q: Seq<char>| #[trigger] self@.contains_key(q) implies self@[q] == old(self)@.remove(key@)[q] by {
                        let j = choose|j: int| 0 <= j < self.keys().len() && self.keys()[j] == q;
                        let oj = if j == i { n - 1 } else { j };
                        self.lemma_view_at(j);
                        old(self).lemma_view_at(oj);
                    }
                    assert(self@ =~= old(self)@.remove(key@));
                }
                true
            },
            None => {
                assert(old(self)@.remove(key@) =~= old(self)@);
                false
            },
        }
    }

    /// Number of entries.
    pub fn len(&self) -> (r: usize)
        ensures
            r == self@.len(),
            self@.dom().finite(),
    {
        proof {
            use_type_invariant(self);
            self.lemma_len();
        }
        self.entries.len()
    }

    /// Removes every entry.
    pub fn clear(&mut self)
        ensures
            final(self)@ == Map::<Seq<char>, V>::empty(),
    {
        self.entries = Vec::new();
        assert(self.keys() =~= Seq::<Seq<char>>::empty());
        assert(self@ =~= Map::<Seq<char>, V>::empty());
    }
}

} // verus!
