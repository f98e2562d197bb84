//! Maps from strings.

use vstd::prelude::*;
use crate::text::same;

verus! {

/// A map from strings. Each key occurs once; a key keeps its place when its value is replaced.
pub struct StringMap<V> {
    entries: Vec<(String, V)>,
}

impl<V> StringMap<V> {
    /// The keys, each once.
    pub closed spec fn keys(&self) -> Seq<Seq<char>> {
        Seq::new(self.entries@.len(), |i: int| self.entries@[i].0@)
    }

    /// The value at place `i`.
    pub closed spec fn value(&self, i: int) -> V {
        self.entries@[i].1
    }

    #[verifier::type_invariant]
    spec fn keys_differ(self) -> bool {
        self.keys().no_duplicates()
    }
}

impl<V: View> View for StringMap<V> {
    type V = Map<Seq<char>, V::V>;

    open spec fn view(&self) -> Map<Seq<char>, V::V> {
        Map::new(
            |k: Seq<char>| self.keys().contains(k),
            |k: Seq<char>| self.value(self.keys().index_of(k))@,
        )
    }
}

impl<V: View> StringMap<V> {
    /// The map without entries.
    pub fn new() -> (r: Self)
        ensures
            r@ == Map::<Seq<char>, V::V>::empty(),
            r.keys() == Seq::<Seq<char>>::empty(),
    {
        let r = StringMap { entries: Vec::new() };
        proof {
            assert(r.keys() =~= Seq::<Seq<char>>::empty());
            assert(r@ =~= Map::<Seq<char>, V::V>::empty());
        }
        r
    }

    /// The number of entries.
    pub fn len(&self) -> (r: usize)
        ensures
            r == self.keys().len(),
            self.keys().no_duplicates(),
    {
        proof {
            use_type_invariant(self);
        }
        self.entries.len()
    }

    /// The entry at place `i`.
    pub fn entry(&self, i: usize) -> (r: (&String, &V))
        requires
            i < self.keys().len(),
        ensures
            r.0@ == self.keys()[i as int],
            self@.contains_key(r.0@),
            self@[r.0@] == r.1@,
    {
        proof {
            use_type_invariant(self);
            let k = self.keys()[i as int];
            assert(self.keys().contains(k));
            assert(self.keys()[self.keys().index_of(k)] == k);
            assert(self.keys().index_of(k) == i);
        }
        (&self.entries[i].0, &self.entries[i].1)
    }

    /// Where `key` stands.
    fn place(&self, key: &str) -> (r: Option<usize>)
        ensures
            match r {
                Some(i) => i < self.keys().len() && self.keys()[i as int] == key@
                    && self.keys().index_of(key@) == i && self.keys().contains(key@),
                None => !self.keys().contains(key@),
            },
    {
        proof {
            use_type_invariant(self);
        }
        let mut i: usize = 0;
        while i < self.entries.len()
            invariant
                i <= self.entries@.len(),
                self.keys().no_duplicates(),
                forall|j: int| 0 <= j < i ==> self.keys()[j] != key@,
            decreases self.entries@.len() - i,
        {
            assert(self.keys()[i as int] == self.entries@[i as int].0@);
            if same(self.entries[i].0.as_str(), key) {
                proof {
                    assert(self.keys().contains(key@));
                    assert(self.keys()[self.keys().index_of(key@)] == key@);
                }
                return Some(i);
            }
            i = i + 1;
        }
        None
    }

    /// Whether there is an entry for `key`.
    pub fn contains_key(&self, key: &str) -> (r: bool)
        ensures
            r == self@.contains_key(key@),
    {
        self.place(key).is_some()
    }

    /// The value for `key`.
    pub fn get(&self, key: &str) -> (r: Option<&V>)
        ensures
            match r {
                Some(v) => self@.contains_key(key@) && self@[key@] == v@,
                None => !self@.contains_key(key@),
            },
    {
        match self.place(key) {
            Some(i) => Some(&self.entries[i].1),
            None => None,
        }
    }

    /// Sets the value for `key`.
    pub fn insert(&mut self, key: String, value: V)
        ensures
            final(self)@ == old(self)@.insert(key@, value@),
    {
        proof {
            use_type_invariant(&*self);
        }
        let ghost before = *self;
        let found = self.place(key.as_str());
        let mut entries: Vec<(String, V)> = Vec::new();
        std::mem::swap(&mut entries, &mut self.entries);
        match found {
            Some(i) => {
                let ghost k = key@;
                let ghost v = value@;
                entries[i] = (key, value);
                proof {
                    let after = StringMap { entries };
                    assert(after.keys() =~= before.keys());
                    assert(after@ =~= before@.insert(k, v)) by {
                        assert forall|q: Seq<char>|
                            after@.contains_key(q) implies after@[q] == before@.insert(k, v)[q] by {
                            assert(after.keys()[after.keys().index_of(q)] == q);
                        }
                    }
                }
            },
            None => {
                let ghost k = key@;
                let ghost v = value@;
                entries.push((key, value));
                proof {
                    let after = StringMap { entries };
                    assert(after.keys() =~= before.keys().push(k));
                    assert(after.keys().no_duplicates());
                    assert(after@ =~= before@.insert(k, v)) by {
                        assert forall|q: Seq<char>|
                            after@.contains_key(q) <==> before@.insert(k, v).contains_key(q) by {
                            if q == k {
                                assert(after.keys()[before.keys().len() as int] == k);
                            }
                            if before.keys().contains(q) {
                                assert(after.keys()[before.keys().index_of(q)] == q);
                            }
                        }
                        assert forall|q: Seq<char>|
                            after@.contains_key(q) implies after@[q] == before@.insert(k, v)[q] by {
                            let i = after.keys().index_of(q);
                            assert(after.keys()[i] == q);
                            if q != k {
                                let j = before.keys().index_of(q);
                                assert(before.keys()[j] == q);
                                assert(after.keys()[j] == q);
                                assert(i == j);
                            }
                        }
                    }
                }
            },
        }
        self.entries = entries;
    }

    /// Takes the entry for `key` out.
    pub fn remove(&mut self, key: &str) -> (r: Option<V>)
        ensures
            final(self)@ == old(self)@.remove(key@),
            match r {
                Some(v) => old(self)@.contains_key(key@) && old(self)@[key@] == v@,
                None => !old(self)@.contains_key(key@),
            },
    {
        proof {
            use_type_invariant(&*self);
        }
        let ghost before = *self;
        match self.place(key) {
            Some(i) => {
                let mut entries: Vec<(String, V)> = Vec::new();
                std::mem::swap(&mut entries, &mut self.entries);
                let entry = entries.remove(i);
                proof {
                    let after = StringMap { entries };
                    assert(after.keys() =~= before.keys().remove(i as int));
                    assert forall|a: int, b: int|
                        0 <= a < after.keys().len() && 0 <= b < after.keys().len() && a
                            != b implies after.keys()[a] != after.keys()[b] by {
                        let a0 = if a < i { a } else { a + 1 };
                        let b0 = if b < i { b } else { b + 1 };
                        assert(after.keys()[a] == before.keys()[a0]);
                        assert(after.keys()[b] == before.keys()[b0]);
                    }
                    assert forall|q: Seq<char>|
                        after@.contains_key(q) <==> before@.remove(key@).contains_key(q) by {
                        if after.keys().contains(q) {
                            let a = after.keys().index_of(q);
                            let a0 = if a < i { a } else { a + 1 };
                            assert(after.keys()[a] == before.keys()[a0]);
                            assert(before.keys()[a0] == q);
                        }
                        if before.keys().contains(q) && q != key@ {
                            let b = before.keys().index_of(q);
                            assert(before.keys()[b] == q);
                            let b0 = if b < i { b } else { b - 1 };
                            assert(after.keys()[b0] == q);
                        }
                    }
                    assert forall|q: Seq<char>|
                        after@.contains_key(q) implies after@[q] == before@.remove(key@)[q] by {
                        let a = after.keys().index_of(q);
                        assert(after.keys()[a] == q);
                        let a0 = if a < i { a } else { a + 1 };
                        assert(before.keys()[a0] == q);
                        assert(before.keys().contains(q));
                        assert(before.keys()[before.keys().index_of(q)] == q);
                        assert(before.keys().index_of(q) == a0);
                    }
                    assert(after@ =~= before@.remove(key@));
                }
                self.entries = entries;
                Some(entry.1)
            },
            None => {
                proof {
                    assert(before@ =~= before@.remove(key@));
                }
                None
            },
        }
    }
}

} // verus!
