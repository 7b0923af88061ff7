//! A finite map from addresses to values, kept as a list of entries whose
//! addresses are pairwise distinct.

use vstd::prelude::*;
use crate::address::Address;

verus! {

/// Values stored under addresses; an address absent from the map reads as
/// the default value of the storage slot it stands for.
pub struct AddrMap<V> {
    entries: Vec<(Address, V)>,
}

impl<V: DeepView> AddrMap<V> {
    /// No address occurs in two entries.
    pub closed spec fn wf(&self) -> bool {
        forall|i: int, j: int|
            0 <= i < j < self.entries@.len() ==> #[trigger] self.entries@[i].0@
                != #[trigger] self.entries@[j].0@
    }

    /// Some entry is stored under the address whose bytes are `k`.
    closed spec fn has(&self, k: Seq<u8>) -> bool {
        exists|i: int| #![trigger self.entries@[i]] 0 <= i < self.entries@.len() && self.entries@[i].0@ == k
    }

    /// The position of the entry stored under `k`.
    closed spec fn slot(&self, k: Seq<u8>) -> int {
        choose|i: int| #![trigger self.entries@[i]] 0 <= i < self.entries@.len() && self.entries@[i].0@ == k
    }

    /// The map from address bytes to the deep view of the value stored there.
    pub closed spec fn map(&self) -> Map<Seq<u8>, V::V> {
        Map::new(|k: Seq<u8>| self.has(k), |k: Seq<u8>| self.entries@[self.slot(k)].1.deep_view())
    }

    proof fn lemma_entry(&self, i: int)
        requires
            self.wf(),
            0 <= i < self.entries@.len(),
        ensures
            self.map().contains_key(self.entries@[i].0@),
            self.map()[self.entries@[i].0@] == self.entries@[i].1.deep_view(),
    {
        let k = self.entries@[i].0@;
        assert(self.has(k));
        let j = self.slot(k);
        if j < i {
            assert(self.entries@[j].0@ != self.entries@[i].0@);
        } else if i < j {
            assert(self.entries@[i].0@ != self.entries@[j].0@);
        }
    }

    proof fn lemma_absent(&self, k: Seq<u8>)
        requires
            forall|i: int| 0 <= i < self.entries@.len() ==> (#[trigger] self.entries@[i]).0@ != k,
        ensures
            !self.map().contains_key(k),
    {
    }

    /// The empty map.
    pub fn new() -> (m: Self)
        ensures
            m.wf(),
            m.map() == Map::<Seq<u8>, V::V>::empty(),
    {
        let m = AddrMap { entries: Vec::new() };
        assert(m.map() =~= Map::<Seq<u8>, V::V>::empty());
        m
    }

    /// The position of the entry stored under `k`, if any.
    fn find(&self, k: &Address) -> (r: Option<usize>)
        requires
            self.wf(),
        ensures
            r matches Some(i) ==> i < self.entries@.len() && self.entries@[i as int].0@ == k@,
            r is None ==> !self.map().contains_key(k@),
    {
        let mut i: usize = 0;
        while i < self.entries.len()
            invariant
                i <= self.entries@.len(),
                forall|j: int| 0 <= j < i ==> (#[trigger] self.entries@[j]).0@ != k@,
            decreases self.entries@.len() - i,
        {
            if self.entries[i].0.same_as(k) {
                return Some(i);
            }
            i += 1;
        }
        proof {
            self.lemma_absent(k@);
        }
        None
    }

    /// The value stored under `k`, if any.
    pub fn get(&self, k: &Address) -> (r: Option<&V>)
        requires
            self.wf(),
        ensures
            r is Some <==> self.map().contains_key(k@),
            r matches Some(v) ==> v.deep_view() == self.map()[k@],
    {
        match self.find(k) {
            Some(i) => {
                proof {
                    self.lemma_entry(i as int);
                }
                Some(&self.entries[i].1)
            },
            None => None,
        }
    }

    /// Stores `v` under `k`, replacing what was there.
    pub fn insert(&mut self, k: Address, v: V)
        requires
            old(self).wf(),
        ensures
            final(self).wf(),
            final(self).map() == old(self).map().insert(k@, v.deep_view()),
    {
        let ghost before = *self;
        let ghost kv = k@;
        let ghost vv = v.deep_view();
        match self.find(&k) {
            Some(i) => {
                self.entries[i] = (k, v);
                assert(self.wf()) by {
                    assert forall|a: int, b: int| 0 <= a < b < self.entries@.len() implies
                        #[trigger] self.entries@[a].0@ != #[trigger] self.entries@[b].0@ by {
                        assert(before.entries@[a].0@ != before.entries@[b].0@);
                    }
                }
                assert forall|key: Seq<u8>| #![auto]
                    self.map().contains_key(key) <==> before.map().insert(kv, vv).contains_key(key) by {
                    if self.has(key) {
                        let j = self.slot(key);
                        if j != i {
                            before.lemma_entry(j);
                        }
                    }
                    if before.has(key) && key != kv {
                        let j = before.slot(key);
                        assert(self.entries@[j] == before.entries@[j]);
                    }
                    if key == kv {
                        assert(self.entries@[i as int].0@ == key);
                    }
                }
                assert forall|key: Seq<u8>| #![auto] self.map().contains_key(key) implies
                    self.map()[key] == before.map().insert(kv, vv)[key] by {
                    let j = self.slot(key);
                    self.lemma_entry(j);
                    if j != i {
                        before.lemma_entry(j);
                    }
                }
                assert(self.map() =~= before.map().insert(kv, vv));
            },
            None => {
                self.entries.push((k, v));
                let ghost n = before.entries@.len() as int;
                assert(self.wf()) by {
                    assert forall|a: int, b: int| 0 <= a < b < self.entries@.len() implies
                        #[trigger] self.entries@[a].0@ != #[trigger] self.entries@[b].0@ by {
                        if b < n {
                            assert(before.entries@[a].0@ != before.entries@[b].0@);
                        } else {
                            assert(self.entries@[a] == before.entries@[a]);
                            if before.entries@[a].0@ == kv {
                                before.lemma_entry(a);
                            }
                        }
                    }
                }
                assert forall|key: Seq<u8>| #![auto]
                    self.map().contains_key(key) <==> before.map().insert(kv, vv).contains_key(key) by {
                    if self.has(key) {
                        let j = self.slot(key);
                        if j < n {
                            assert(self.entries@[j] == before.entries@[j]);
                            before.lemma_entry(j);
                        }
                    }
                    if before.has(key) {
                        let j = before.slot(key);
                        assert(self.entries@[j] == before.entries@[j]);
                    }
                    if key == kv {
                        assert(self.entries@[n].0@ == key);
                    }
                }
                assert forall|key: Seq<u8>| #![auto] self.map().contains_key(key) implies
                    self.map()[key] == before.map().insert(kv, vv)[key] by {
                    let j = self.slot(key);
                    self.lemma_entry(j);
                    if j < n {
                        assert(self.entries@[j] == before.entries@[j]);
                        before.lemma_entry(j);
                    }
                }
                assert(self.map() =~= before.map().insert(kv, vv));
            },
        }
    }

    /// Removes and returns the value stored under `k`, if any.
    pub fn take(&mut self, k: &Address) -> (r: Option<V>)
        requires
            old(self).wf(),
        ensures
            final(self).wf(),
            final(self).map() == old(self).map().remove(k@),
            r is Some <==> old(self).map().contains_key(k@),
            r matches Some(v) ==> v.deep_view() == old(self).map()[k@],
    {
        let ghost before = *self;
        let ghost kv = k@;
        match self.find(k) {
            Some(i) => {
                proof {
                    before.lemma_entry(i as int);
                }
                let (_, v) = self.entries.remove(i);
                assert(self.wf()) by {
                    assert forall|a: int, b: int| 0 <= a < b < self.entries@.len() implies
                        #[trigger] self.entries@[a].0@ != #[trigger] self.entries@[b].0@ by {
                        let a0 = if a < i { a } else { a + 1 };
                        let b0 = if b < i { b } else { b + 1 };
                        assert(self.entries@[a] == before.entries@[a0]);
                        assert(self.entries@[b] == before.entries@[b0]);
                        assert(before.entries@[a0].0@ != before.entries@[b0].0@);
                    }
                }
                assert forall|key: Seq<u8>| #![auto]
                    self.map().contains_key(key) <==> before.map().remove(kv).contains_key(key) by {
                    if self.has(key) {
                        let j = self.slot(key);
                        let j0 = if j < i { j } else { j + 1 };
                        assert(self.entries@[j] == before.entries@[j0]);
                        before.lemma_entry(j0);
                        assert(before.entries@[j0].0@ != before.entries@[i as int].0@);
                    }
                    if before.has(key) && key != kv {
                        let j0 = before.slot(key);
                        let j = if j0 < i { j0 } else { j0 - 1 };
                        assert(self.entries@[j] == before.entries@[j0]);
                    }
                }
                assert forall|key: Seq<u8>| #![auto] self.map().contains_key(key) implies
                    self.map()[key] == before.map().remove(kv)[key] by {
                    let j = self.slot(key);
                    self.lemma_entry(j);
                    let j0 = if j < i { j } else { j + 1 };
                    assert(self.entries@[j] == before.entries@[j0]);
                    before.lemma_entry(j0);
                }
                assert(self.map() =~= before.map().remove(kv));
                Some(v)
            },
            None => {
                assert(self.map() =~= before.map().remove(kv));
                None
            },
        }
    }
}

} // verus!
