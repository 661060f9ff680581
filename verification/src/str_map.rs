//! A small map from strings to values, kept as a list of distinct keys.

use vstd::prelude::*;

verus! {

/// Entry `i` of `s` has key `k`.
pub open spec fn has_key_at<V>(s: Seq<(String, V)>, k: Seq<char>, i: int) -> bool {
    0 <= i < s.len() && s[i].0@ == k
}

/// A map from strings to values. Each key occurs once.
pub struct StrMap<V> {
    entries: Vec<(String, V)>,
}

impl<V> View for StrMap<V> {
    type V = Map<Seq<char>, V>;

    closed spec fn view(&self) -> Map<Seq<char>, V> {
        Map::new(
            |k: Seq<char>| exists|i: int| has_key_at(self.entries@, k, i),
            |k: Seq<char>| self.entries@[self.index_of_key(k)].1,
        )
    }
}

impl<V> StrMap<V> {
    closed spec fn index_of_key(&self, k: Seq<char>) -> int {
        choose|i: int| has_key_at(self.entries@, k, i)
    }

    /// No key occurs twice.
    pub closed spec fn wf(&self) -> bool {
        forall|i: int, j: int|
            0 <= i < j < self.entries@.len() ==> #[trigger] self.entries@[i].0@
                != #[trigger] self.entries@[j].0@
    }

    /// The key of the `i`-th entry, in the order in which `key_at` and `value_at` walk them.
    pub closed spec fn spec_key_at(&self, i: int) -> Seq<char> {
        self.entries@[i].0@
    }

    /// The values, in the order in which `key_at` and `value_at` walk them.
    pub closed spec fn values(&self) -> Seq<V> {
        self.entries@.map_values(|e: (String, V)| e.1)
    }

    /// Number of entries.
    pub closed spec fn spec_len(&self) -> nat {
        self.entries@.len()
    }

    proof fn lemma_at(&self, i: int)
        requires
            self.wf(),
            0 <= i < self.entries@.len(),
        ensures
            self@.contains_key(self.entries@[i].0@),
            self@[self.entries@[i].0@] == self.entries@[i].1,
            self.index_of_key(self.entries@[i].0@) == i,
    {
        let k = self.entries@[i].0@;
        assert(has_key_at(self.entries@, k, i));
        let j = self.index_of_key(k);
        assert(has_key_at(self.entries@, k, j));
        if i < j {
            assert(self.entries@[i].0@ != self.entries@[j].0@);
        } else if j < i {
            assert(self.entries@[j].0@ != self.entries@[i].0@);
        }
    }

    /// An empty map.
    pub fn new() -> (m: StrMap<V>)
        ensures
            m.wf(),
            m@ == Map::<Seq<char>, V>::empty(),
            m.spec_len() == 0,
            m.values() == Seq::<V>::empty(),
    {
        let m = StrMap { entries: Vec::new() };
        assert(m@ =~= Map::<Seq<char>, V>::empty());
        assert(m.values() =~= Seq::<V>::empty());
        m
    }

    /// Number of entries.
    pub fn len(&self) -> (n: usize)
        ensures
            n == self.spec_len(),
    {
        self.entries.len()
    }

    /// Key of the `i`-th entry.
    pub fn key_at(&self, i: usize) -> (k: &String)
        requires
            i < self.spec_len(),
        ensures
            k@ == self.spec_key_at(i as int),
    {
        &self.entries[i].0
    }

    /// Value of the `i`-th entry.
    pub fn value_at(&self, i: usize) -> (v: &V)
        requires
            self.wf(),
            i < self.spec_len(),
        ensures
            *v == self@[self.spec_key_at(i as int)],
    {
        proof {
            self.lemma_at(i as int);
        }
        &self.entries[i].1
    }

    fn find(&self, k: &String) -> (r: Option<usize>)
        requires
            self.wf(),
        ensures
            r matches Some(i) ==> i < self.entries@.len() && self.entries@[i as int].0@ == k@,
            r is None <==> !self@.contains_key(k@),
    {
        let mut i: usize = 0;
        while i < self.entries.len()
            invariant
                self.wf(),
                i <= self.entries@.len(),
                forall|j: int| 0 <= j < i ==> self.entries@[j].0@ != k@,
            decreases self.entries@.len() - i,
        {
            if self.entries[i].0 == *k {
                proof {
                    self.lemma_at(i as int);
                }
                return Some(i);
            }
            i = i + 1;
        }
        assert(!self@.contains_key(k@)) by {
            if self@.contains_key(k@) {
                let j = choose|j: int| has_key_at(self.entries@, k@, j);
                assert(self.entries@[j].0@ == k@);
            }
        }
        None
    }

    /// The value stored under `k`, if any.
    pub fn get(&self, k: &String) -> (r: Option<&V>)
        requires
            self.wf(),
        ensures
            r matches Some(v) ==> self@.contains_key(k@) && *v == self@[k@],
            r is None <==> !self@.contains_key(k@),
    {
        match self.find(k) {
            Some(i) => {
                proof {
                    self.lemma_at(i as int);
                }
                Some(&self.entries[i].1)
            },
            None => None,
        }
    }

    /// Removes the entry under `k` and returns its value, if there was one.
    pub fn take(&mut self, k: &String) -> (r: Option<V>)
        requires
            old(self).wf(),
        ensures
            final(self).wf(),
            final(self)@ == old(self)@.remove(k@),
            r matches Some(v) ==> old(self)@.contains_key(k@) && v == old(self)@[k@],
            r is None <==> !old(self)@.contains_key(k@),
            r matches Some(v) ==> exists|i: int|
                0 <= i < old(self).values().len() && old(self).values()[i] == v
                    && final(self).values() == old(self).values().remove(i),
            r is None ==> final(self).values() == old(self).values(),
    {
        match self.find(k) {
            Some(i) => {
                proof {
                    self.lemma_at(i as int);
                }
                let ghost old_self = *self;
                let ghost old_entries = self.entries@;
                let e = self.entries.remove(i);
                assert forall|a: int, b: int|
                    0 <= a < b < self.entries@.len() implies #[trigger] self.entries@[a].0@
                    != #[trigger] self.entries@[b].0@ by {
                    let a2 = if a < i { a } else { a + 1 };
                    let b2 = if b < i { b } else { b + 1 };
                    assert(self.entries@[a] == old_entries[a2]);
                    assert(self.entries@[b] == old_entries[b2]);
                }
                assert(self@ =~= old_self@.remove(k@)) by {
                    assert forall|k2: Seq<char>| #[trigger]
                        self@.contains_key(k2) == old_self@.remove(k@).contains_key(k2) by {
                        if self@.contains_key(k2) {
                            let j = choose|j: int| has_key_at(self.entries@, k2, j);
                            let j2 = if j < i { j } else { j + 1 };
                            assert(self.entries@[j] == old_entries[j2]);
                            assert(has_key_at(old_entries, k2, j2));
                            if k2 == k@ {
                                assert(old_entries[j2].0@ == old_entries[i as int].0@);
                            }
                        }
                        if old_self@.remove(k@).contains_key(k2) {
                            let j = choose|j: int| has_key_at(old_entries, k2, j);
                            assert(j != i);
                            let j2 = if j < i { j } else { j - 1 };
                            assert(self.entries@[j2] == old_entries[j]);
                            assert(has_key_at(self.entries@, k2, j2));
                        }
                    }
                    assert forall|k2: Seq<char>| #[trigger]
                        self@.contains_key(k2) implies self@[k2] == old_self@.remove(k@)[k2] by {
                        let j = self.index_of_key(k2);
                        self.lemma_at(j);
                        let j2 = if j < i { j } else { j + 1 };
                        assert(self.entries@[j] == old_entries[j2]);
                        old_self.lemma_at(j2);
                    }
                }
                assert(self.values() =~= old_self.values().remove(i as int));
                assert(old_self.values()[i as int] == e.1);
                Some(e.1)
            },
            None => {
                assert(self@ =~= self@.remove(k@));
                None
            },
        }
    }

    /// Stores `v` under a key that is not yet in the map.
    pub fn insert_new(&mut self, k: String, v: V)
        requires
            old(self).wf(),
            !old(self)@.contains_key(k@),
        ensures
            final(self).wf(),
            final(self)@ == old(self)@.insert(k@, v),
            final(self).spec_len() == old(self).spec_len() + 1,
            final(self).values() == old(self).values().push(v),
    {
        let ghost old_self = *self;
        let ghost old_entries = self.entries@;
        let ghost kv = k@;
        proof {
            assert forall|j: int| 0 <= j < old_entries.len() implies old_entries[j].0@ != kv by {
                if old_entries[j].0@ == kv {
                    assert(has_key_at(old_entries, kv, j));
                }
            }
        }
        self.entries.push((k, v));
        assert(self.values() =~= old_self.values().push(v));
        let ghost n = old_entries.len() as int;
        assert forall|a: int, b: int|
            0 <= a < b < self.entries@.len() implies #[trigger] self.entries@[a].0@
            != #[trigger] self.entries@[b].0@ by {
            assert(self.entries@[a] == old_entries[a]);
            if b < n {
                assert(self.entries@[b] == old_entries[b]);
            }
        }
        assert(self@ =~= old_self@.insert(kv, v)) by {
            assert forall|k2: Seq<char>| #[trigger]
                self@.contains_key(k2) == old_self@.insert(kv, v).contains_key(k2) by {
                if self@.contains_key(k2) && k2 != kv {
                    let j = choose|j: int| has_key_at(self.entries@, k2, j);
                    assert(j < n);
                    assert(has_key_at(old_entries, k2, j));
                }
                if k2 == kv {
                    assert(has_key_at(self.entries@, k2, n));
                } else if old_self@.contains_key(k2) {
                    let j = choose|j: int| has_key_at(old_entries, k2, j);
                    assert(has_key_at(self.entries@, k2, j));
                }
            }
            assert forall|k2: Seq<char>| #[trigger]
                self@.contains_key(k2) implies self@[k2] == old_self@.insert(kv, v)[k2] by {
                let j = self.index_of_key(k2);
                self.lemma_at(j);
                if j < n {
                    old_self.lemma_at(j);
                }
            }
        }
    }
}

} // verus!
