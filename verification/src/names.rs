//! maps from names (byte strings) to values, kept as a list of distinct names

use vstd::prelude::*;
use crate::text::bytes_eq;

verus! {

/// a finite map from names to values; each name occurs at most once in the list
pub struct NameMap<V> {
    entries: Vec<(Vec<u8>, V)>,
}

impl<V: Copy> NameMap<V> {
    /// the names in the order in which they were first inserted, with their values
    pub closed spec fn entries_view(&self) -> Seq<(Seq<u8>, V)> {
        Seq::new(self.entries@.len(), |i: int| (self.entries@[i].0@, self.entries@[i].1))
    }

    pub closed spec fn view(&self) -> Map<Seq<u8>, V> {
        Map::new(
            |k: Seq<u8>| exists|i: int| 0 <= i < self.entries@.len() && #[trigger] self.entries@[i].0@ == k,
            |k: Seq<u8>| self.entries@[choose|i: int| 0 <= i < self.entries@.len() && #[trigger] self.entries@[i].0@ == k].1,
        )
    }

    pub closed spec fn wf(&self) -> bool {
        forall|i: int, j: int|
            0 <= i < j < self.entries@.len() ==> #[trigger] self.entries@[i].0@ != #[trigger] self.entries@[j].0@
    }

    pub fn new() -> (r: Self)
        ensures
            r.wf(),
            r@ == Map::<Seq<u8>, V>::empty(),
    {
        let r = NameMap { entries: Vec::new() };
        assert(r@ =~= Map::<Seq<u8>, V>::empty());
        r
    }

    fn find(&self, key: &[u8]) -> (r: Option<usize>)
        requires
            self.wf(),
        ensures
            r matches Some(i) ==> i < self.entries@.len() && self.entries@[i as int].0@ == key@,
            r is None ==> forall|i: int| 0 <= i < self.entries@.len() ==> self.entries@[i].0@ != key@,
    {
        let mut i: usize = 0;
        while i < self.entries.len()
            invariant
                i <= self.entries@.len(),
                forall|j: int| 0 <= j < i ==> self.entries@[j].0@ != key@,
            decreases self.entries@.len() - i,
        {
            if bytes_eq(self.entries[i].0.as_slice(), key) {
                return Some(i);
            }
            i += 1;
        }
        None
    }

    proof fn lemma_view_at(&self, i: int)
        requires
            self.wf(),
            0 <= i < self.entries@.len(),
        ensures
            self@.contains_key(self.entries@[i].0@),
            self@[self.entries@[i].0@] == self.entries@[i].1,
    {
        let k = self.entries@[i].0@;
        assert(self.entries@[i].0@ == k);
        let j = choose|j: int| 0 <= j < self.entries@.len() && #[trigger] self.entries@[j].0@ == k;
        if i != j {
            if i < j {
                assert(self.entries@[i].0@ != self.entries@[j].0@);
            } else {
                assert(self.entries@[j].0@ != self.entries@[i].0@);
            }
        }
    }

    /// the value of a name, if it has one
    pub fn get(&self, key: &[u8]) -> (r: Option<V>)
        requires
            self.wf(),
        ensures
            r == (if self@.contains_key(key@) { Some(self@[key@]) } else { None::<V> }),
    {
        match self.find(key) {
            Some(i) => {
                proof { self.lemma_view_at(i as int); }
                Some(self.entries[i].1)
            },
            None => {
                assert(!self@.contains_key(key@));
                None
            },
        }
    }

    /// whether a name has a value
    pub fn contains_key(&self, key: &[u8]) -> (r: bool)
        requires
            self.wf(),
        ensures
            r == self@.contains_key(key@),
    {
        match self.get(key) {
            Some(_) => true,
            None => false,
        }
    }

    /// gives a name a value, in place of the one it had; tells whether it had one
    pub fn insert(&mut self, key: &[u8], value: V) -> (had: bool)
        requires
            old(self).wf(),
        ensures
            final(self).wf(),
            had == old(self)@.contains_key(key@),
            final(self)@ == old(self)@.insert(key@, value),
    {
        let ghost old_map = self@;
        match self.find(key) {
            Some(i) => {
                proof { self.lemma_view_at(i as int); }
                let k = crate::text::bytes_to_vec(key);
                let ghost old_entries = self.entries@;
                self.entries.set(i, (k, value));
                assert(self.wf()) by {
                    assert forall|a: int, b: int| 0 <= a < b < self.entries@.len() implies #[trigger] self.entries@[a].0@ != #[trigger] self.entries@[b].0@ by {
                        assert(old_entries[a].0@ != old_entries[b].0@);
                    }
                }
                assert forall|k2: Seq<u8>| #![auto] self@.contains_key(k2) == old_map.insert(key@, value).contains_key(k2) by {
                    if self@.contains_key(k2) {
                        let j = choose|j: int| 0 <= j < self.entries@.len() && #[trigger] self.entries@[j].0@ == k2;
                        if j != i as int {
                            assert(old_entries[j].0@ == k2);
                        }
                    }
                    if old_map.contains_key(k2) && k2 != key@ {
                        let j = choose|j: int| 0 <= j < old_entries.len() && #[trigger] old_entries[j].0@ == k2;
                        assert(self.entries@[j].0@ == k2);
                    }
                    if k2 == key@ {
                        assert(self.entries@[i as int].0@ == k2);
                    }
                }
                assert forall|k2: Seq<u8>| #![auto] self@.contains_key(k2) implies self@[k2] == old_map.insert(key@, value)[k2] by {
                    let j = choose|j: int| 0 <= j < self.entries@.len() && #[trigger] self.entries@[j].0@ == k2;
                    self.lemma_view_at(j);
                    if j != i as int {
                        assert(old_entries[j] == self.entries@[j]);
                        assert(old_entries[j].0@ == k2);
                        assert(old_map.contains_key(k2));
                        let jj = choose|jj: int| 0 <= jj < old_entries.len() && #[trigger] old_entries[jj].0@ == k2;
                        if jj != j {
                            if jj < j {
                                assert(old_entries[jj].0@ != old_entries[j].0@);
                            } else {
                                assert(old_entries[j].0@ != old_entries[jj].0@);
                            }
                        }
                    }
                }
                assert(self@ =~= old_map.insert(key@, value));
                true
            },
            None => {
                let k = crate::text::bytes_to_vec(key);
                let ghost old_entries = self.entries@;
                self.entries.push((k, value));
                assert(self.wf()) by {
                    assert forall|a: int, b: int| 0 <= a < b < self.entries@.len() implies #[trigger] self.entries@[a].0@ != #[trigger] self.entries@[b].0@ by {
                        if b < old_entries.len() {
                            assert(old_entries[a].0@ != old_entries[b].0@);
                        }
                    }
                }
                let ghost n = old_entries.len() as int;
                assert forall|k2: Seq<u8>| #![auto] self@.contains_key(k2) == old_map.insert(key@, value).contains_key(k2) by {
                    if self@.contains_key(k2) {
                        let j = choose|j: int| 0 <= j < self.entries@.len() && #[trigger] self.entries@[j].0@ == k2;
                        if j < n {
                            assert(old_entries[j].0@ == k2);
                        }
                    }
                    if old_map.contains_key(k2) {
                        let j = choose|j: int| 0 <= j < old_entries.len() && #[trigger] old_entries[j].0@ == k2;
                        assert(self.entries@[j].0@ == k2);
                    }
                    if k2 == key@ {
                        assert(self.entries@[n].0@ == k2);
                    }
                }
                assert forall|k2: Seq<u8>| #![auto] self@.contains_key(k2) implies self@[k2] == old_map.insert(key@, value)[k2] by {
                    let j = choose|j: int| 0 <= j < self.entries@.len() && #[trigger] self.entries@[j].0@ == k2;
                    self.lemma_view_at(j);
                    if j < n {
                        assert(old_entries[j] == self.entries@[j]);
                        assert(old_map.contains_key(k2));
                        let jj = choose|jj: int| 0 <= jj < old_entries.len() && #[trigger] old_entries[jj].0@ == k2;
                        if jj != j {
                            if jj < j {
                                assert(old_entries[jj].0@ != old_entries[j].0@);
                            } else {
                                assert(old_entries[j].0@ != old_entries[jj].0@);
                            }
                        }
                    }
                }
                assert(self@ =~= old_map.insert(key@, value));
                false
            },
        }
    }

    /// the names and their values, in the order in which the names were first given one
    pub fn to_list(&self) -> (r: Vec<(Vec<u8>, V)>)
        ensures
            r@.len() == self.entries_view().len(),
            forall|k: int| 0 <= k < r@.len() ==> (#[trigger] r@[k]).0@ == self.entries_view()[k].0 && r@[k].1 == self.entries_view()[k].1,
    {
        let mut r: Vec<(Vec<u8>, V)> = Vec::new();
        let mut i: usize = 0;
        while i < self.entries.len()
            invariant
                i <= self.entries@.len(),
                r@.len() == i,
                forall|k: int| 0 <= k < i ==> (#[trigger] r@[k]).0@ == self.entries_view()[k].0 && r@[k].1 == self.entries_view()[k].1,
            decreases self.entries@.len() - i,
        {
            r.push((crate::text::bytes_to_vec(self.entries[i].0.as_slice()), self.entries[i].1));
            i += 1;
        }
        r
    }
}

} // verus!
