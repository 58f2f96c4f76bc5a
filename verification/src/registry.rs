//! Keyed bookkeeping of the backend: devices by id, pending decisions and
//! cancellation flags by transfer id.

use vstd::prelude::*;
use crate::text::text_eq;

verus! {

/// A map from text keys to values, in insertion order, each key at most once.
pub struct KeyedRegistry<V> {
    entries: Vec<(String, V)>,
}

impl<V> KeyedRegistry<V> {
    /// No key occurs twice.
    pub closed spec fn wf(&self) -> bool {
        forall|i: int, j: int|
            0 <= i < j < self.entries@.len() ==> #[trigger] self.entries@[i].0@
                != #[trigger] self.entries@[j].0@
    }

    /// Whether `k` is the key of entry `i`.
    closed spec fn key_at(&self, i: int, k: Seq<char>) -> bool {
        0 <= i < self.entries@.len() && self.entries@[i].0@ == k
    }

    /// The keys and values as a map.
    pub closed spec fn map(&self) -> Map<Seq<char>, V> {
        Map::new(
            |k: Seq<char>| exists|i: int| self.key_at(i, k),
            |k: Seq<char>| self.entries@[choose|i: int| self.key_at(i, k)].1,
        )
    }

    /// The values in insertion order.
    pub closed spec fn values(&self) -> Seq<V> {
        self.entries@.map_values(|e: (String, V)| e.1)
    }

    proof fn lemma_value_at(&self, i: int)
        requires
            self.wf(),
            0 <= i < self.entries@.len(),
        ensures
            self.map().dom().contains(self.entries@[i].0@),
            self.map()[self.entries@[i].0@] == self.entries@[i].1,
    {
        let k = self.entries@[i].0@;
        assert(self.key_at(i, k));
        let j = choose|j: int| self.key_at(j, k);
        assert(j == i);
    }

    /// An empty registry.
    pub fn new() -> (r: Self)
        ensures
            r.wf(),
            r.map() == Map::<Seq<char>, V>::empty(),
            r.values() == Seq::<V>::empty(),
    {
        let r = KeyedRegistry { entries: Vec::new() };
        assert(r.map() =~= Map::<Seq<char>, V>::empty());
        assert(r.values() =~= Seq::<V>::empty());
        r
    }

    /// The number of entries.
    pub fn len(&self) -> (n: usize)
        requires
            self.wf(),
        ensures
            n == self.map().len(),
            n == self.values().len(),
    {
        proof { self.lemma_len(); }
        self.entries.len()
    }

    proof fn lemma_len(&self)
        requires
            self.wf(),
        ensures
            self.map().len() == self.entries@.len(),
    {
        let keys = self.entries@.map_values(|e: (String, V)| e.0@);
        assert(keys.no_duplicates()) by {
            assert forall|i: int, j: int| 0 <= i < keys.len() && 0 <= j < keys.len() && i != j
                implies keys[i] != keys[j] by {
                if i < j {
                    assert(self.entries@[i].0@ != self.entries@[j].0@);
                } else {
                    assert(self.entries@[j].0@ != self.entries@[i].0@);
                }
            }
        }
        assert(self.map().dom() =~= keys.to_set()) by {
            assert forall|k: Seq<char>| self.map().dom().contains(k) implies keys.to_set().contains(k) by {
                let i = choose|i: int| self.key_at(i, k);
                assert(keys[i] == k);
            }
            assert forall|k: Seq<char>| keys.to_set().contains(k) implies self.map().dom().contains(k) by {
                let i = choose|i: int| 0 <= i < keys.len() && keys[i] == k;
                assert(self.key_at(i, k));
            }
        }
        keys.unique_seq_to_set();
    }

    /// Where `key` is, if present.
    fn find(&self, key: &str) -> (r: Option<usize>)
        requires
            self.wf(),
        ensures
            r matches Some(i) ==> i < self.entries@.len() && self.entries@[i as int].0@ == key@,
            r is None ==> !self.map().dom().contains(key@),
    {
        let mut i: usize = 0;
        while i < self.entries.len()
            invariant
                i <= self.entries@.len(),
                forall|j: int| 0 <= j < i ==> self.entries@[j].0@ != key@,
            decreases self.entries.len() - i,
        {
            if text_eq(self.entries[i].0.as_str(), key) {
                return Some(i);
            }
            i = i + 1;
        }
        None
    }

    /// Whether `key` is present.
    pub fn contains_key(&self, key: &str) -> (r: bool)
        requires
            self.wf(),
        ensures
            r == self.map().dom().contains(key@),
    {
        match self.find(key) {
            Some(i) => {
                proof { self.lemma_value_at(i as int); }
                true
            },
            None => false,
        }
    }

    /// The value of `key`, if present.
    pub fn get(&self, key: &str) -> (r: Option<&V>)
        requires
            self.wf(),
        ensures
            self.map().dom().contains(key@) ==> r == Some(&self.map()[key@]),
            !self.map().dom().contains(key@) ==> r is None,
    {
        match self.find(key) {
            Some(i) => {
                proof { self.lemma_value_at(i as int); }
                Some(&self.entries[i].1)
            },
            None => None,
        }
    }

    /// Sets the value of `key`, replacing an earlier value (`HashMap::insert`).
    /// A new key goes after the others; a present key keeps its place.
    pub fn insert(&mut self, key: String, value: V)
        requires
            old(self).wf(),
        ensures
            final(self).wf(),
            final(self).map() == old(self).map().insert(key@, value),
    {
        match self.find(key.as_str()) {
            Some(i) => {
                let ghost prev = *self;
                let ghost k = key@;
                self.entries.set(i, (key, value));
                proof {
                    assert(self.wf()) by {
                        assert forall|a: int, b: int| 0 <= a < b < self.entries@.len() implies
                            #[trigger] self.entries@[a].0@ != #[trigger] self.entries@[b].0@ by {
                            assert(prev.entries@[a].0@ != prev.entries@[b].0@);
                        }
                    }
                    assert forall|x: Seq<char>| #![auto] self.map().dom().contains(x) == prev.map().insert(k, value).dom().contains(x) by {
                        if self.map().dom().contains(x) {
                            let j = choose|j: int| self.key_at(j, x);
                            if j != i as int { assert(prev.key_at(j, x)); }
                        }
                        if prev.map().dom().contains(x) {
                            let j = choose|j: int| prev.key_at(j, x);
                            if j != i as int { assert(self.key_at(j, x)); } else { assert(self.key_at(j, x)); }
                        }
                        if x == k { assert(self.key_at(i as int, x)); }
                    }
                    assert forall|x: Seq<char>| #![auto] self.map().dom().contains(x) implies self.map()[x] == prev.map().insert(k, value)[x] by {
                        let j = choose|j: int| self.key_at(j, x);
                        self.lemma_value_at(j);
                        if j != i as int {
                            prev.lemma_value_at(j);
                        }
                    }
                    assert(self.map() =~= prev.map().insert(k, value));
                }
            },
            None => {
                let ghost prev = *self;
                let ghost k = key@;
                self.entries.push((key, value));
                proof {
                    let n = self.entries@.len() - 1;
                    assert(self.wf()) by {
                        assert forall|a: int, b: int| 0 <= a < b < self.entries@.len() implies
                            #[trigger] self.entries@[a].0@ != #[trigger] self.entries@[b].0@ by {
                            if b == n {
                                assert(prev.key_at(a, prev.entries@[a].0@));
                            } else {
                                assert(prev.entries@[a].0@ != prev.entries@[b].0@);
                            }
                        }
                    }
                    assert forall|x: Seq<char>| #![auto] self.map().dom().contains(x) == prev.map().insert(k, value).dom().contains(x) by {
                        if self.map().dom().contains(x) {
                            let j = choose|j: int| self.key_at(j, x);
                            if j != n { assert(prev.key_at(j, x)); }
                        }
                        if prev.map().dom().contains(x) {
                            let j = choose|j: int| prev.key_at(j, x);
                            assert(self.key_at(j, x));
                        }
                        if x == k { assert(self.key_at(n, x)); }
                    }
                    assert forall|x: Seq<char>| #![auto] self.map().dom().contains(x) implies self.map()[x] == prev.map().insert(k, value)[x] by {
                        let j = choose|j: int| self.key_at(j, x);
                        self.lemma_value_at(j);
                        if j != n {
                            prev.lemma_value_at(j);
                        }
                    }
                    assert(self.map() =~= prev.map().insert(k, value));
                }
            },
        }
    }

    /// Takes out the value of `key`, if present (`HashMap::remove`).
    pub fn remove(&mut self, key: &str) -> (r: Option<V>)
        requires
            old(self).wf(),
        ensures
            final(self).wf(),
            final(self).map() == old(self).map().remove(key@),
            old(self).map().dom().contains(key@) ==> r == Some(old(self).map()[key@]),
            !old(self).map().dom().contains(key@) ==> r is None,
    {
        match self.find(key) {
            Some(i) => {
                let ghost prev = *self;
                let ghost k = key@;
                proof { prev.lemma_value_at(i as int); }
                let (_, v) = self.entries.remove(i);
                proof {
                    assert(self.wf()) by {
                        assert forall|a: int, b: int| 0 <= a < b < self.entries@.len() implies
                            #[trigger] self.entries@[a].0@ != #[trigger] self.entries@[b].0@ by {
                            let pa = if a < i { a } else { a + 1 };
                            let pb = if b < i { b } else { b + 1 };
                            assert(self.entries@[a] == prev.entries@[pa]);
                            assert(self.entries@[b] == prev.entries@[pb]);
                            assert(prev.entries@[pa].0@ != prev.entries@[pb].0@);
                        }
                    }
                    assert forall|x: Seq<char>| #![auto] self.map().dom().contains(x) == prev.map().remove(k).dom().contains(x) by {
                        if self.map().dom().contains(x) {
                            let j = choose|j: int| self.key_at(j, x);
                            let pj = if j < i { j } else { j + 1 };
                            assert(self.entries@[j] == prev.entries@[pj]);
                            assert(prev.key_at(pj, x));
                            assert(pj != i);
                            assert(prev.entries@[pj].0@ != prev.entries@[i as int].0@);
                        }
                        if prev.map().dom().contains(x) && x != k {
                            let j = choose|j: int| prev.key_at(j, x);
                            assert(j != i);
                            let sj = if j < i { j } else { j - 1 };
                            assert(self.entries@[sj] == prev.entries@[j]);
                            assert(self.key_at(sj, x));
                        }
                    }
                    assert forall|x: Seq<char>| #![auto] self.map().dom().contains(x) implies self.map()[x] == prev.map().remove(k)[x] by {
                        let j = choose|j: int| self.key_at(j, x);
                        self.lemma_value_at(j);
                        let pj = if j < i { j } else { j + 1 };
                        assert(self.entries@[j] == prev.entries@[pj]);
                        prev.lemma_value_at(pj);
                    }
                    assert(self.map() =~= prev.map().remove(k));
                }
                Some(v)
            },
            None => {
                proof { assert(self.map() =~= self.map().remove(key@)); }
                None
            },
        }
    }

    /// The entries, in insertion order.
    pub fn values_ref(&self) -> (r: Vec<&V>)
        requires
            self.wf(),
        ensures
            r@.len() == self.values().len(),
            forall|i: int| 0 <= i < r@.len() ==> *r@[i] == self.values()[i],
    {
        let mut r: Vec<&V> = Vec::new();
        let mut i: usize = 0;
        while i < self.entries.len()
            invariant
                i <= self.entries@.len(),
                r@.len() == i,
                forall|j: int| 0 <= j < i ==> *r@[j] == self.entries@[j].1,
            decreases self.entries.len() - i,
        {
            r.push(&self.entries[i].1);
            i = i + 1;
        }
        r
    }

    /// The values, in insertion order, are those of the map, each once.
    pub proof fn lemma_values_are_map_values(&self)
        requires
            self.wf(),
        ensures
            self.values().len() == self.map().len(),
            forall|i: int| 0 <= i < self.values().len() ==> self.map().contains_value(
                #[trigger] self.values()[i],
            ),
            forall|k: Seq<char>| #[trigger] self.map().dom().contains(k) ==> self.values().contains(
                self.map()[k],
            ),
    {
        self.lemma_len();
        assert forall|i: int| 0 <= i < self.values().len() implies self.map().contains_value(
            #[trigger] self.values()[i],
        ) by {
            self.lemma_value_at(i);
            assert(self.values()[i] == self.entries@[i].1);
            let k = self.entries@[i].0@;
            assert(self.map().dom().contains(k) && self.map()[k] == self.values()[i]);
        }
        assert forall|k: Seq<char>| #[trigger] self.map().dom().contains(k) implies self.values().contains(
            self.map()[k],
        ) by {
            let i = choose|i: int| self.key_at(i, k);
            self.lemma_value_at(i);
            assert(self.values()[i] == self.entries@[i].1);
        }
    }
}

/// What a read gives back of a write: once `key` was set to `value`, it
/// is found with that value, and every other key is found, or not, with the
/// value it had.
pub proof fn lemma_read_after_insert<V>(
    before: &KeyedRegistry<V>,
    after: &KeyedRegistry<V>,
    key: Seq<char>,
    value: V,
    other: Seq<char>,
)
    requires
        after.map() == before.map().insert(key, value),
        other != key,
    ensures
        after.map().dom().contains(key),
        after.map()[key] == value,
        after.map().dom().contains(other) == before.map().dom().contains(other),
        before.map().dom().contains(other) ==> after.map()[other] == before.map()[other],
{
}

/// Once `key` was removed it is not found, and every other key is found,
/// or not, with the value it had.
pub proof fn lemma_read_after_remove<V>(
    before: &KeyedRegistry<V>,
    after: &KeyedRegistry<V>,
    key: Seq<char>,
    other: Seq<char>,
)
    requires
        after.map() == before.map().remove(key),
        other != key,
    ensures
        !after.map().dom().contains(key),
        after.map().dom().contains(other) == before.map().dom().contains(other),
        before.map().dom().contains(other) ==> after.map()[other] == before.map()[other],
{
}

} // verus!
