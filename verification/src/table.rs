//! A small keyed table: the contract storage entries of one kind.
use crate::address::Address;
use vstd::prelude::*;

verus! {

/// Keys of a [`Table`]: values compared by their fields.
pub trait TableKey: Sized {
    fn same(&self, other: &Self) -> (r: bool)
        ensures
            r == (*self == *other),
    ;
}

impl TableKey for u64 {
    fn same(&self, other: &Self) -> (r: bool) {
        *self == *other
    }
}

impl TableKey for Address {
    fn same(&self, other: &Self) -> (r: bool) {
        *self == *other
    }
}

impl TableKey for (u64, u32) {
    fn same(&self, other: &Self) -> (r: bool) {
        self.0 == other.0 && self.1 == other.1
    }
}

impl TableKey for (u64, u64) {
    fn same(&self, other: &Self) -> (r: bool) {
        self.0 == other.0 && self.1 == other.1
    }
}

impl TableKey for (u64, u64, Address) {
    fn same(&self, other: &Self) -> (r: bool) {
        self.0 == other.0 && self.1 == other.1 && self.2 == other.2
    }
}

/// A table of entries, at most one per key.
pub struct Table<K, V> {
    entries: Vec<(K, V)>,
}

impl<K, V> Table<K, V> {
    /// The entries in storage order.
    pub closed spec fn entry_seq(self) -> Seq<(K, V)> {
        self.entries@
    }

    #[verifier::type_invariant]
    closed spec fn keys_unique(self) -> bool {
        forall|i: int, j: int|
            0 <= i < j < self.entries@.len() ==> #[trigger] self.entries@[i].0 != #[trigger] self.entries@[j].0
    }

    /// The table as a map from keys to values.
    pub closed spec fn view(self) -> Map<K, V> {
        Map::new(
            |k: K| exists|i: int| 0 <= i < self.entries@.len() && self.entries@[i].0 == k,
            |k: K|
                self.entries@[choose|i: int| 0 <= i < self.entries@.len() && self.entries@[i].0 == k].1,
        )
    }

    /// Every entry is in the map, and every key of the map has an entry.
    proof fn lemma_entries(self)
        requires
            self.keys_unique(),
        ensures
            forall|i: int|
                0 <= i < self.entry_seq().len() ==> #[trigger] self.view().contains_key(
                    self.entry_seq()[i].0,
                ) && self.view()[self.entry_seq()[i].0] == self.entry_seq()[i].1,
            forall|k: K| #[trigger]
                self.view().contains_key(k) ==> exists|i: int|
                    0 <= i < self.entry_seq().len() && self.entry_seq()[i].0 == k,
    {
        assert forall|k: K| #[trigger] self.view().contains_key(k) implies exists|i: int|
            0 <= i < self.entry_seq().len() && self.entry_seq()[i].0 == k by {
            let fk = |k: K| exists|i: int| 0 <= i < self.entries@.len() && self.entries@[i].0 == k;
            assert(self.view().dom() == Set::new(fk));
            assert(fk(k));
            let i = choose|i: int| 0 <= i < self.entries@.len() && self.entries@[i].0 == k;
            assert(self.entry_seq()[i].0 == k);
        }
        assert forall|i: int| 0 <= i < self.entry_seq().len() implies #[trigger] self.view().contains_key(
            self.entry_seq()[i].0,
        ) && self.view()[self.entry_seq()[i].0] == self.entry_seq()[i].1 by {
            let k = self.entries@[i].0;
            let j = choose|j: int| 0 <= j < self.entries@.len() && self.entries@[j].0 == k;
            if j < i {
                assert(self.entries@[j].0 != self.entries@[i].0);
            }
            if i < j {
                assert(self.entries@[i].0 != self.entries@[j].0);
            }
        }
    }

    pub fn new() -> (t: Self)
        ensures
            t.view() == Map::<K, V>::empty(),
            t.entry_seq().len() == 0,
    {
        let t = Table { entries: Vec::new() };
        assert(t.view() =~= Map::<K, V>::empty());
        t
    }

    /// Number of entries.
    pub fn len(&self) -> (n: usize)
        ensures
            n == self.entry_seq().len(),
            n == self.view().dom().len(),
    {
        proof {
            use_type_invariant(self);
            self.lemma_len();
        }
        self.entries.len()
    }

    proof fn lemma_len(self)
        requires
            self.keys_unique(),
        ensures
            self.entries@.len() == self.view().dom().len(),
            self.view().dom().finite(),
    {
        let keys = Seq::new(self.entries@.len(), |i: int| self.entries@[i].0);
        assert(keys.no_duplicates()) by {
            assert forall|i: int, j: int|
                0 <= i < keys.len() && 0 <= j < keys.len() && i != j implies keys[i] != keys[j] by {
                if i < j {
                    assert(self.entries@[i].0 != self.entries@[j].0);
                } else {
                    assert(self.entries@[j].0 != self.entries@[i].0);
                }
            }
        }
        assert(keys.to_set() =~= self.view().dom()) by {
            assert forall|k: K| keys.to_set().contains(k) implies self.view().dom().contains(k) by {
                let i = choose|i: int| 0 <= i < keys.len() && keys[i] == k;
                assert(self.entries@[i].0 == k);
            }
            assert forall|k: K| self.view().dom().contains(k) implies keys.to_set().contains(k) by {
                let i = choose|i: int| 0 <= i < self.entries@.len() && self.entries@[i].0 == k;
                assert(keys[i] == k);
            }
        }
        keys.unique_seq_to_set();
    }

    /// The entry at position `i`, in storage order.
    pub fn entry(&self, i: usize) -> (e: &(K, V))
        requires
            i < self.entry_seq().len(),
        ensures
            *e == self.entry_seq()[i as int],
            self.view().contains_key(e.0),
            self.view()[e.0] == e.1,
    {
        proof {
            use_type_invariant(self);
            self.lemma_entries();
        }
        &self.entries[i]
    }
}

impl<K: TableKey, V> Table<K, V> {
    /// Position of the entry for `k`, if any.
    fn find(&self, k: &K) -> (r: Option<usize>)
        ensures
            match r {
                Some(i) => i < self.entries@.len() && self.entries@[i as int].0 == *k,
                None => forall|i: int| 0 <= i < self.entries@.len() ==> self.entries@[i].0 != *k,
            },
    {
        let mut i: usize = 0;
        while i < self.entries.len()
            invariant
                i <= self.entries@.len(),
                forall|j: int| 0 <= j < i ==> self.entries@[j].0 != *k,
            decreases self.entries@.len() - i,
        {
            if self.entries[i].0.same(k) {
                return Some(i);
            }
            i = i + 1;
        }
        None
    }

    /// The value stored for `k`, if any.
    pub fn get(&self, k: &K) -> (r: Option<&V>)
        ensures
            match r {
                Some(v) => self.view().contains_key(*k) && *v == self.view()[*k],
                None => !self.view().contains_key(*k),
            },
    {
        proof {
            use_type_invariant(self);
            self.lemma_entries();
        }
        match self.find(k) {
            Some(i) => Some(&self.entries[i].1),
            None => None,
        }
    }

    /// Whether an entry for `k` exists.
    pub fn contains_key(&self, k: &K) -> (r: bool)
        ensures
            r == self.view().contains_key(*k),
    {
        proof {
            use_type_invariant(self);
            self.lemma_entries();
        }
        self.find(k).is_some()
    }

    /// Stores `v` under `k`, replacing any earlier value.
    pub fn insert(&mut self, k: K, v: V)
        ensures
            final(self).view() == old(self).view().insert(k, v),
    {
        proof {
            use_type_invariant(&*self);
            self.lemma_entries();
        }
        let ghost old_entries = self.entries@;
        let ghost ov = self.view();
        let found = self.find(&k);
        let mut entries: Vec<(K, V)> = Vec::new();
        std::mem::swap(&mut entries, &mut self.entries);
        let ghost pos: int;
        match found {
            Some(i) => {
                entries.set(i, (k, v));
                proof {
                    pos = i as int;
                    assert forall|a: int, b: int|
                        0 <= a < b < entries@.len() implies #[trigger] entries@[a].0
                        != #[trigger] entries@[b].0 by {
                        assert(old_entries[a].0 != old_entries[b].0);
                    }
                }
            },
            None => {
                entries.push((k, v));
                proof {
                    pos = old_entries.len() as int;
                    assert forall|a: int, b: int|
                        0 <= a < b < entries@.len() implies #[trigger] entries@[a].0
                        != #[trigger] entries@[b].0 by {
                        if b < old_entries.len() {
                            assert(old_entries[a].0 != old_entries[b].0);
                        }
                    }
                }
            },
        }
        self.entries = entries;
        proof {
            use_type_invariant(&*self);
            self.lemma_entries();
            let nv = self.view();
            let ne = self.entries@;
            assert(0 <= pos < ne.len() && ne[pos] == (k, v));
            assert(forall|j: int| 0 <= j < ne.len() && j != pos ==> ne[j] == old_entries[j]);
            assert(forall|j: int| 0 <= j < old_entries.len() && j != pos ==> old_entries[j].0 != k);
            assert forall|k2: K| #[trigger] nv.contains_key(k2) == ov.insert(k, v).contains_key(k2) by {
                if k2 == k {
                    assert(ne[pos].0 == k);
                } else {
                    if nv.contains_key(k2) {
                        let j = choose|j: int| 0 <= j < ne.len() && ne[j].0 == k2;
                        assert(old_entries[j].0 == k2);
                    }
                    if ov.contains_key(k2) {
                        let j = choose|j: int| 0 <= j < old_entries.len() && old_entries[j].0 == k2;
                        assert(ne[j].0 == k2);
                    }
                }
            }
            assert forall|k2: K| #[trigger] nv.contains_key(k2) implies nv[k2] == ov.insert(k, v)[k2] by {
                if k2 == k {
                    assert(ne[pos].0 == k);
                } else {
                    let j = choose|j: int| 0 <= j < ne.len() && ne[j].0 == k2;
                    assert(old_entries[j].0 == k2);
                    assert(ne[j] == old_entries[j]);
                }
            }
            assert(nv =~= ov.insert(k, v));
        }
    }

    /// Deletes the entry for `k`, if any.
    pub fn remove(&mut self, k: &K)
        ensures
            final(self).view() == old(self).view().remove(*k),
    {
        proof {
            use_type_invariant(&*self);
            self.lemma_entries();
        }
        let ghost old_entries = self.entries@;
        match self.find(k) {
            Some(i) => {
                let mut entries: Vec<(K, V)> = Vec::new();
                std::mem::swap(&mut entries, &mut self.entries);
                entries.remove(i);
                proof {
                    assert forall|a: int, b: int|
                        0 <= a < b < entries@.len() implies #[trigger] entries@[a].0
                        != #[trigger] entries@[b].0 by {
                        let oa = if a < i { a } else { a + 1 };
                        let ob = if b < i { b } else { b + 1 };
                        assert(old_entries[oa].0 != old_entries[ob].0);
                    }
                }
                self.entries = entries;
                proof {
                    let nv = self.view();
                    let ov = old(self).view();
                    use_type_invariant(&*self);
                    self.lemma_entries();
                    assert(nv =~= ov.remove(*k)) by {
                        assert forall|k2: K| #[trigger]
                            nv.contains_key(k2) == ov.remove(*k).contains_key(k2) by {
                            if nv.contains_key(k2) {
                                let j = choose|j: int|
                                    0 <= j < self.entry_seq().len() && self.entry_seq()[j].0 == k2;
                                let oj = if j < i { j } else { j + 1 };
                                assert(old_entries[oj].0 == k2);
                                assert(oj != i);
                                if k2 == *k {
                                    assert(old_entries[i as int].0 != old_entries[oj].0);
                                }
                            }
                            if ov.contains_key(k2) && k2 != *k {
                                let j = choose|j: int|
                                    0 <= j < old_entries.len() && old_entries[j].0 == k2;
                                assert(j != i);
                                let nj = if j < i { j } else { j - 1 };
                                assert(self.entries@[nj] == old_entries[j]);
                            }
                        }
                        assert forall|k2: K| #[trigger] nv.contains_key(k2) implies nv[k2] == ov.remove(
                            *k,
                        )[k2] by {
                            let j = choose|j: int|
                                0 <= j < self.entry_seq().len() && self.entry_seq()[j].0 == k2;
                            let oj = if j < i { j } else { j + 1 };
                            assert(old_entries[oj] == self.entries@[j]);
                        }
                    }
                }
            },
            None => {
                proof {
                    assert(old(self).view() =~= old(self).view().remove(*k));
                }
            },
        }
    }
}

} // verus!
