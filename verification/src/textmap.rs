//! A small map keyed by text, kept in the order in which its keys came.

use vstd::prelude::*;
use crate::text::str_eq;

verus! {

/// A map from text to values, each key once.
pub struct TextMap<V> {
    entries: Vec<(String, V)>,
}

impl<V> TextMap<V> {
    #[verifier::type_invariant]
    spec fn unique_names(self) -> bool {
        forall|i: int, j: int|
            0 <= i < j < self.entries@.len() ==> self.entries@[i].0@ != self.entries@[j].0@
    }

    spec fn position(self, key: Seq<char>) -> int {
        choose|i: int| 0 <= i < self.entries@.len() && self.entries@[i].0@ == key
    }

    /// The map that this stands for.
    pub closed spec fn view(&self) -> Map<Seq<char>, V> {
        Map::new(
            |k: Seq<char>|
                exists|i: int| 0 <= i < self.entries@.len() && self.entries@[i].0@ == k,
            |k: Seq<char>| self.entries@[self.position(k)].1,
        )
    }

    /// The keys in the order in which they came.
    pub closed spec fn keys(&self) -> Seq<Seq<char>> {
        self.entries@.map_values(|e: (String, V)| e.0@)
    }

    /// A map without keys.
    pub fn new() -> (m: TextMap<V>)
        ensures
            m@ == Map::<Seq<char>, V>::empty(),
            m.keys() == Seq::<Seq<char>>::empty(),
    {
        let m: TextMap<V> = TextMap { entries: Vec::new() };
        assert(m@ =~= Map::<Seq<char>, V>::empty());
        assert(m.keys() =~= Seq::<Seq<char>>::empty());
        m
    }

    /// The number of keys.
    pub fn len(&self) -> (n: usize)
        ensures
            n == self@.dom().len(),
            self@.dom().finite(),
    {
        proof {
            use_type_invariant(self);
            self.lemma_domain(self.entries@.len() as int);
            assert(self@.dom() =~= self.names(self.entries@.len() as int));
        }
        self.entries.len()
    }

    spec fn names(self, n: int) -> Set<Seq<char>> {
        Set::new(|k: Seq<char>| exists|i: int| 0 <= i < n && self.entries@[i].0@ == k)
    }

    proof fn lemma_domain(self, n: int)
        requires
            self.unique_names(),
            0 <= n <= self.entries@.len(),
        ensures
            self.names(n).finite(),
            self.names(n).len() == n,
        decreases n,
    {
        if n == 0 {
            assert(self.names(0) =~= Set::<Seq<char>>::empty());
        } else {
            self.lemma_domain(n - 1);
            let k = self.entries@[n - 1].0@;
            assert(!self.names(n - 1).contains(k));
            assert(self.names(n) =~= self.names(n - 1).insert(k));
        }
    }

    fn find(&self, key: &str) -> (r: Option<usize>)
        ensures
            match r {
                Some(i) => i < self.entries@.len() && self.entries@[i as int].0@ == key@,
                None => forall|i: int| 0 <= i < self.entries@.len() ==> self.entries@[i].0@ != key@,
            },
    {
        let mut i: usize = 0;
        while i < self.entries.len()
            invariant
                i <= self.entries@.len(),
                forall|j: int| 0 <= j < i ==> self.entries@[j].0@ != key@,
            decreases self.entries@.len() - i,
        {
            if str_eq(self.entries[i].0.as_str(), key) {
                return Some(i);
            }
            i += 1;
        }
        None
    }

    /// Whether `key` is present.
    pub fn contains_key(&self, key: &str) -> (r: bool)
        ensures
            r == self@.contains_key(key@),
    {
        self.find(key).is_some()
    }

    /// The value under `key`.
    pub fn get(&self, key: &str) -> (r: Option<&V>)
        ensures
            match r {
                Some(v) => self@.contains_key(key@) && self@[key@] == *v,
                None => !self@.contains_key(key@),
            },
    {
        proof {
            use_type_invariant(self);
        }
        match self.find(key) {
            Some(i) => {
                assert(self.position(key@) == i);
                Some(&self.entries[i].1)
            },
            None => None,
        }
    }

    /// Puts `value` under `key`, whether or not the key was present.
    pub fn insert(&mut self, key: String, value: V)
        ensures
            final(self)@ == old(self)@.insert(key@, value),
            final(self).keys() == if old(self)@.contains_key(key@) {
                old(self).keys()
            } else {
                old(self).keys().push(key@)
            },
    {
        proof {
            use_type_invariant(&*self);
        }
        let ghost before = *self;
        match self.find(key.as_str()) {
            Some(i) => {
                let mut entries: Vec<(String, V)> = Vec::new();
                core::mem::swap(&mut self.entries, &mut entries);
                entries.set(i, (key, value));
                self.entries = entries;
                proof {
                    assert forall|k: Seq<char>| #[trigger] self@.contains_key(k) implies self@[k]
                        == before@.insert(key@, value)[k] by {
                        let p = self.position(k);
                        if k != key@ {
                            assert(before.entries@[p].0@ == k);
                            assert(before.position(k) == p);
                        } else {
                            assert(p == i);
                        }
                    }
                    assert forall|k: Seq<char>|
                        self@.contains_key(k) == #[trigger] before@.insert(
                            key@,
                            value,
                        ).contains_key(k) by {
                        if before@.contains_key(k) {
                            let q = before.position(k);
                            assert(self.entries@[q].0@ == k);
                        }
                        if k == key@ {
                            assert(self.entries@[i as int].0@ == k);
                        }
                    }
                    assert(self@ =~= before@.insert(key@, value));
                    assert(before@.contains_key(key@));
                    assert(self.keys() =~= before.keys());
                }
            },
            None => {
                let mut entries: Vec<(String, V)> = Vec::new();
                core::mem::swap(&mut self.entries, &mut entries);
                entries.push((key, value));
                self.entries = entries;
                proof {
                    let n = before.entries@.len() as int;
                    assert forall|k: Seq<char>| #[trigger] self@.contains_key(k) implies self@[k]
                        == before@.insert(key@, value)[k] by {
                        let p = self.position(k);
                        if k != key@ {
                            assert(p < n);
                            assert(before.entries@[p].0@ == k);
                            assert(before.position(k) == p);
                        } else {
                            assert(p == n);
                        }
                    }
                    assert forall|k: Seq<char>|
                        self@.contains_key(k) == #[trigger] before@.insert(
                            key@,
                            value,
                        ).contains_key(k) by {
                        if before@.contains_key(k) {
                            let q = before.position(k);
                            assert(self.entries@[q].0@ == k);
                        }
                        if k == key@ {
                            assert(self.entries@[n].0@ == k);
                        }
                    }
                    assert(self@ =~= before@.insert(key@, value));
                    assert(!before@.contains_key(key@));
                    assert(self.keys() =~= before.keys().push(key@));
                }
            },
        }
    }

    /// Takes `key` out, and returns its value.
    pub fn remove(&mut self, key: &str) -> (r: Option<V>)
        ensures
            final(self)@ == old(self)@.remove(key@),
            match r {
                Some(v) => old(self)@.contains_key(key@) && old(self)@[key@] == v,
                None => !old(self)@.contains_key(key@),
            },
    {
        proof {
            use_type_invariant(&*self);
        }
        let ghost before = *self;
        match self.find(key) {
            Some(i) => {
                assert(before.position(key@) == i);
                let mut entries: Vec<(String, V)> = Vec::new();
                core::mem::swap(&mut self.entries, &mut entries);
                let pair = entries.remove(i);
                self.entries = entries;
                proof {
                    assert forall|k: Seq<char>|
                        self@.contains_key(k) == #[trigger] before@.remove(key@).contains_key(
                            k,
                        ) by {
                        if self@.contains_key(k) {
                            let p = self.position(k);
                            if p < i {
                                assert(before.entries@[p].0@ == k);
                            } else {
                                assert(before.entries@[p + 1].0@ == k);
                            }
                        }
                        if before@.contains_key(k) && k != key@ {
                            let q = before.position(k);
                            if q < i {
                                assert(self.entries@[q].0@ == k);
                            } else {
                                assert(self.entries@[q - 1].0@ == k);
                            }
                        }
                    }
                    assert forall|k: Seq<char>| #[trigger] self@.contains_key(k) implies self@[k]
                        == before@.remove(key@)[k] by {
                        let p = self.position(k);
                        if p < i {
                            assert(before.entries@[p].0@ == k);
                            assert(before.position(k) == p);
                        } else {
                            assert(before.entries@[p + 1].0@ == k);
                            assert(before.position(k) == p + 1);
                        }
                    }
                    assert(self@ =~= before@.remove(key@));
                }
                Some(pair.1)
            },
            None => {
                assert(self@ =~= before@.remove(key@));
                None
            },
        }
    }

    /// Hands out the keys with their values, each key once.
    pub fn into_entries(self) -> (r: Vec<(String, V)>)
        ensures
            unique_keys(r@),
            r@.len() == self@.dom().len(),
            r@.len() == self.keys().len(),
            forall|i: int| 0 <= i < r@.len() ==> (#[trigger] r@[i]).0@ == self.keys()[i],
            forall|i: int|
                0 <= i < r@.len() ==> self@.contains_key(#[trigger] r@[i].0@) && self@[r@[i].0@]
                    == r@[i].1,
            forall|k: Seq<char>|
                self@.contains_key(k) ==> exists|i: int| 0 <= i < r@.len() && #[trigger] r@[i].0@ == k,
    {
        proof {
            use_type_invariant(&self);
            self.lemma_domain(self.entries@.len() as int);
            assert(self@.dom() =~= self.names(self.entries@.len() as int));
            assert forall|i: int| 0 <= i < self.entries@.len() implies self@.contains_key(
                #[trigger] self.entries@[i].0@,
            ) && self@[self.entries@[i].0@] == self.entries@[i].1 by {
                assert(self.position(self.entries@[i].0@) == i);
            }
        }
        self.entries
    }
}

/// No two entries have the same key.
pub open spec fn unique_keys<V>(entries: Seq<(String, V)>) -> bool {
    forall|i: int, j: int| 0 <= i < j < entries.len() ==> entries[i].0@ != entries[j].0@
}

} // verus!
