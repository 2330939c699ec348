//! A small association map that stands for an on-chain storage map.
//!
//! Entries are kept in a vector in the order in which keys were first
//! inserted; that order is the iteration order that the pallets rely on when
//! they scan a map. The abstract model of the map is a `Map<K, V>`.

use vstd::prelude::*;

verus! {

/// Keys that can be compared for equality in executable code, with the
/// comparison agreeing with mathematical equality.
pub trait KeyEq: Sized {
    fn key_eq(&self, other: &Self) -> (b: bool)
        ensures
            b == (*self == *other),
    ;

    fn copy_key(&self) -> (r: Self)
        ensures
            r == *self,
    ;
}

impl KeyEq for u64 {
    fn key_eq(&self, other: &Self) -> (b: bool) {
        *self == *other
    }

    fn copy_key(&self) -> (r: Self) {
        *self
    }
}

impl KeyEq for u32 {
    fn key_eq(&self, other: &Self) -> (b: bool) {
        *self == *other
    }

    fn copy_key(&self) -> (r: Self) {
        *self
    }
}

impl KeyEq for (u64, u64) {
    fn key_eq(&self, other: &Self) -> (b: bool) {
        self.0 == other.0 && self.1 == other.1
    }

    fn copy_key(&self) -> (r: Self) {
        (self.0, self.1)
    }
}

/// Association map from `K` to `V`.
#[verifier::reject_recursive_types(K)]
pub struct KeyMap<K, V> {
    entries: Vec<(K, V)>,
    model: Ghost<Map<K, V>>,
}

impl<K, V> View for KeyMap<K, V> {
    type V = Map<K, V>;

    closed spec fn view(&self) -> Map<K, V> {
        self.model@
    }
}

impl<K: KeyEq, V> KeyMap<K, V> {
    /// The map's internal consistency: distinct keys, and the entry vector
    /// holds exactly the model's pairs.
    pub closed spec fn wf(&self) -> bool {
        &&& forall|i: int, j: int|
            0 <= i < j < self.entries@.len() ==> #[trigger] self.entries@[i].0
                != #[trigger] self.entries@[j].0
        &&& forall|i: int|
            0 <= i < self.entries@.len() ==> self.model@.contains_key(#[trigger] self.entries@[i].0)
                && self.model@[self.entries@[i].0] == self.entries@[i].1
        &&& forall|k: K|
            #[trigger] self.model@.contains_key(k) ==> exists|i: int|
                0 <= i < self.entries@.len() && #[trigger] self.entries@[i].0 == k
    }

    /// The keys in iteration order.
    pub closed spec fn keys(&self) -> Seq<K> {
        self.entries@.map_values(|e: (K, V)| e.0)
    }

    /// Facts about a well-formed map that callers may rely on.
    pub proof fn lemma_keys(&self)
        requires
            self.wf(),
        ensures
            self.keys().no_duplicates(),
            forall|k: K| self@.contains_key(k) <==> #[trigger] self.keys().contains(k),
            forall|i: int| 0 <= i < self.keys().len() ==> #[trigger] self@.contains_key(self.keys()[i]),
            self@.dom().finite(),
            self@.dom().len() == self.keys().len(),
            self@.dom() == self.keys().to_set(),
    {
        assert forall|k: K| self@.contains_key(k) <==> #[trigger] self.keys().contains(k) by {
            if self@.contains_key(k) {
                let i = choose|i: int| 0 <= i < self.entries@.len() && #[trigger] self.entries@[i].0 == k;
                assert(self.keys()[i] == k);
            }
            if self.keys().contains(k) {
                let i = choose|i: int| 0 <= i < self.keys().len() && self.keys()[i] == k;
                assert(self.entries@[i].0 == k);
            }
        }
        assert forall|i: int, j: int| 0 <= i < self.keys().len() && 0 <= j < self.keys().len() && i != j
            implies self.keys()[i] != self.keys()[j] by {
            if i < j {
                assert(self.entries@[i].0 != self.entries@[j].0);
            } else {
                assert(self.entries@[j].0 != self.entries@[i].0);
            }
        }
        assert(self@.dom() =~= self.keys().to_set());
        self.keys().unique_seq_to_set();
    }

    pub fn new() -> (m: Self)
        ensures
            m.wf(),
            m@ == Map::<K, V>::empty(),
            m.keys() == Seq::<K>::empty(),
    {
        let m = KeyMap { entries: Vec::new(), model: Ghost(Map::empty()) };
        assert(m.keys() =~= Seq::<K>::empty());
        m
    }

    pub fn len(&self) -> (n: usize)
        requires
            self.wf(),
        ensures
            n == self.keys().len(),
            n == self@.dom().len(),
    {
        proof {
            self.lemma_keys();
        }
        self.entries.len()
    }

    /// The key at a position in iteration order.
    pub fn key_at(&self, i: usize) -> (k: K)
        requires
            self.wf(),
            i < self.keys().len(),
        ensures
            k == self.keys()[i as int],
            self@.contains_key(k),
    {
        self.entries[i].0.copy_key()
    }

    /// The value stored under the key at a position in iteration order.
    pub fn value_at(&self, i: usize) -> (v: &V)
        requires
            self.wf(),
            i < self.keys().len(),
        ensures
            *v == self@[self.keys()[i as int]],
    {
        &self.entries[i].1
    }

    fn find(&self, k: &K) -> (r: Option<usize>)
        requires
            self.wf(),
        ensures
            match r {
                Some(i) => i < self.entries@.len() && self.entries@[i as int].0 == *k,
                None => !self@.contains_key(*k),
            },
    {
        let mut i: usize = 0;
        while i < self.entries.len()
            invariant
                self.wf(),
                i <= self.entries@.len(),
                forall|j: int| 0 <= j < i ==> self.entries@[j].0 != *k,
            decreases self.entries@.len() - i,
        {
            if self.entries[i].0.key_eq(k) {
                return Some(i);
            }
            i += 1;
        }
        proof {
            if self@.contains_key(*k) {
                let j = choose|j: int| 0 <= j < self.entries@.len() && #[trigger] self.entries@[j].0 == *k;
                assert(self.entries@[j].0 != *k);
            }
        }
        None
    }

    pub fn contains_key(&self, k: &K) -> (b: bool)
        requires
            self.wf(),
        ensures
            b == self@.contains_key(*k),
    {
        match self.find(k) {
            Some(_) => true,
            None => false,
        }
    }

    pub fn get(&self, k: &K) -> (r: Option<&V>)
        requires
            self.wf(),
        ensures
            match r {
                Some(v) => self@.contains_key(*k) && *v == self@[*k],
                None => !self@.contains_key(*k),
            },
    {
        match self.find(k) {
            Some(i) => Some(&self.entries[i].1),
            None => None,
        }
    }

    /// Inserts or overwrites. A new key goes to the end of the iteration
    /// order; an existing key keeps its position.
    pub fn insert(&mut self, k: K, v: V)
        requires
            old(self).wf(),
        ensures
            final(self).wf(),
            final(self)@ == old(self)@.insert(k, v),
            old(self)@.contains_key(k) ==> final(self).keys() == old(self).keys(),
            !old(self)@.contains_key(k) ==> final(self).keys() == old(self).keys().push(k),
    {
        match self.find(&k) {
            Some(i) => {
                let ghost old_entries = self.entries@;
                self.entries.set(i, (k, v));
                self.model = Ghost(self.model@.insert(k, v));
                proof {
                    assert forall|j: int| 0 <= j < self.entries@.len() implies self.model@.contains_key(
                        #[trigger] self.entries@[j].0,
                    ) && self.model@[self.entries@[j].0] == self.entries@[j].1 by {
                        if j != i {
                            assert(old_entries[j].0 != k);
                        }
                    }
                    assert forall|key: K| #[trigger] self.model@.contains_key(key) implies exists|j: int|
                        0 <= j < self.entries@.len() && #[trigger] self.entries@[j].0 == key by {
                        if key == k {
                            assert(self.entries@[i as int].0 == key);
                        } else {
                            let j = choose|j: int| 0 <= j < old_entries.len() && #[trigger] old_entries[j].0 == key;
                            assert(self.entries@[j].0 == key);
                        }
                    }
                    assert(self.keys() =~= old(self).keys());
                }
            },
            None => {
                let ghost old_entries = self.entries@;
                self.entries.push((k, v));
                self.model = Ghost(self.model@.insert(k, v));
                proof {
                    assert forall|a: int, b: int| 0 <= a < b < self.entries@.len() implies #[trigger] self.entries@[a].0
                        != #[trigger] self.entries@[b].0 by {
                        if b == old_entries.len() {
                            assert(old(self)@.contains_key(old_entries[a].0));
                        }
                    }
                    assert forall|j: int| 0 <= j < self.entries@.len() implies self.model@.contains_key(
                        #[trigger] self.entries@[j].0,
                    ) && self.model@[self.entries@[j].0] == self.entries@[j].1 by {
                        if j < old_entries.len() {
                            assert(old(self)@.contains_key(old_entries[j].0));
                        }
                    }
                    assert forall|key: K| #[trigger] self.model@.contains_key(key) implies exists|j: int|
                        0 <= j < self.entries@.len() && #[trigger] self.entries@[j].0 == key by {
                        if key == k {
                            assert(self.entries@[old_entries.len() as int].0 == key);
                        } else {
                            let j = choose|j: int| 0 <= j < old_entries.len() && #[trigger] old_entries[j].0 == key;
                            assert(self.entries@[j].0 == key);
                        }
                    }
                    assert(self.keys() =~= old(self).keys().push(k));
                }
            },
        }
    }

    /// Removes a key, keeping the relative order of the remaining keys.
    pub fn remove(&mut self, k: &K) -> (r: Option<V>)
        requires
            old(self).wf(),
        ensures
            final(self).wf(),
            final(self)@ == old(self)@.remove(*k),
            match r {
                Some(v) => old(self)@.contains_key(*k) && v == old(self)@[*k],
                None => !old(self)@.contains_key(*k) && final(self).keys() == old(self).keys(),
            },
            old(self)@.contains_key(*k) ==> exists|i: int|
                0 <= i < old(self).keys().len() && old(self).keys()[i] == *k && final(self).keys()
                    == old(self).keys().remove(i),
    {
        match self.find(k) {
            Some(i) => {
                let ghost old_entries = self.entries@;
                let (_key, v) = self.entries.remove(i);
                self.model = Ghost(self.model@.remove(*k));
                proof {
                    assert forall|a: int, b: int| 0 <= a < b < self.entries@.len() implies #[trigger] self.entries@[a].0
                        != #[trigger] self.entries@[b].0 by {
                        let a0 = if a < i { a } else { a + 1 };
                        let b0 = if b < i { b } else { b + 1 };
                        assert(self.entries@[a] == old_entries[a0]);
                        assert(self.entries@[b] == old_entries[b0]);
                    }
                    assert forall|j: int| 0 <= j < self.entries@.len() implies self.model@.contains_key(
                        #[trigger] self.entries@[j].0,
                    ) && self.model@[self.entries@[j].0] == self.entries@[j].1 by {
                        let j0 = if j < i { j } else { j + 1 };
                        assert(self.entries@[j] == old_entries[j0]);
                        assert(old_entries[j0].0 != old_entries[i as int].0);
                    }
                    assert forall|key: K| #[trigger] self.model@.contains_key(key) implies exists|j: int|
                        0 <= j < self.entries@.len() && #[trigger] self.entries@[j].0 == key by {
                        let j0 = choose|j: int| 0 <= j < old_entries.len() && #[trigger] old_entries[j].0 == key;
                        assert(j0 != i);
                        let j = if j0 < i { j0 } else { j0 - 1 };
                        assert(self.entries@[j].0 == key);
                    }
                    assert(self.keys() =~= old(self).keys().remove(i as int));
                    assert(old(self).keys()[i as int] == *k);
                }
                Some(v)
            },
            None => {
                proof {
                    assert(self.model@.remove(*k) =~= self.model@);
                }
                None
            },
        }
    }
}

} // verus!
