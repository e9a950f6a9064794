use vstd::prelude::*;

use crate::ids::ActorId;

verus! {

/// A finite map keyed by `ActorId`, stored as a vector of entries in which
/// no key occurs twice.
pub struct ActorMap<V: View> {
    entries: Vec<(ActorId, V)>,
}

impl<V: View> ActorMap<V> {
    #[verifier::type_invariant]
    spec fn keys_unique(self) -> bool {
        forall|i: int, j: int|
            0 <= i < self.entries@.len() && 0 <= j < self.entries@.len()
                && (#[trigger] self.entries@[i]).0 == (#[trigger] self.entries@[j]).0 ==> i == j
    }

    spec fn has_key(self, k: ActorId) -> bool {
        exists|i: int| 0 <= i < self.entries@.len() && (#[trigger] self.entries@[i]).0 == k
    }

    spec fn index_of(self, k: ActorId) -> int {
        choose|i: int| 0 <= i < self.entries@.len() && (#[trigger] self.entries@[i]).0 == k
    }

    /// The map from each key to the view of its value.
    pub closed spec fn view(&self) -> Map<ActorId, V::V> {
        Map::new(|k: ActorId| self.has_key(k), |k: ActorId| self.entries@[self.index_of(k)].1@)
    }

    proof fn lemma_entry(self, i: int)
        requires
            self.keys_unique(),
            0 <= i < self.entries@.len(),
        ensures
            self.view().contains_key(self.entries@[i].0),
            self.view()[self.entries@[i].0] == self.entries@[i].1@,
            self.index_of(self.entries@[i].0) == i,
    {
        assert(self.has_key(self.entries@[i].0));
    }

    /// The empty map.
    pub fn new() -> (m: Self)
        ensures
            m@ == Map::<ActorId, V::V>::empty(),
    {
        let m = ActorMap { entries: Vec::new() };
        assert(m@ =~= Map::<ActorId, V::V>::empty());
        m
    }

    /// The position of `k` among the entries.
    fn find(&self, k: &ActorId) -> (r: Option<usize>)
        ensures
            r is None ==> !self@.contains_key(*k),
            r matches Some(i) ==> i < self.entries@.len() && self.entries@[i as int].0 == *k
                && self@.contains_key(*k) && self@[*k] == self.entries@[i as int].1@,
    {
        proof {
            use_type_invariant(self);
        }
        let mut i: usize = 0;
        while i < self.entries.len()
            invariant
                self.keys_unique(),
                i <= self.entries@.len(),
                forall|j: int| 0 <= j < i ==> (#[trigger] self.entries@[j]).0 != *k,
            decreases self.entries@.len() - i,
        {
            if self.entries[i].0 == *k {
                proof {
                    self.lemma_entry(i as int);
                }
                return Some(i);
            }
            i = i + 1;
        }
        None
    }

    /// Whether `k` has a value.
    pub fn contains_key(&self, k: &ActorId) -> (r: bool)
        ensures
            r == self@.contains_key(*k),
    {
        self.find(k).is_some()
    }

    /// The value of `k`, if it has one.
    pub fn get(&self, k: &ActorId) -> (r: Option<&V>)
        ensures
            r is Some == self@.contains_key(*k),
            r matches Some(v) ==> v@ == self@[*k],
    {
        match self.find(k) {
            Some(i) => Some(&self.entries[i].1),
            None => None,
        }
    }

    /// Gives `k` the value `v`, in place of the one it had.
    pub fn insert(&mut self, k: ActorId, v: V)
        ensures
            final(self)@ == old(self)@.insert(k, v@),
    {
        proof {
            use_type_invariant(&*self);
        }
        let ghost pre = *self;
        let found = self.find(&k);
        match found {
            Some(i) => {
                let mut entries = Vec::new();
                std::mem::swap(&mut entries, &mut self.entries);
                entries.set(i, (k, v));
                self.entries = entries;
                proof {
                    let post = *self;
                    assert forall|a: int, b: int|
                        0 <= a < post.entries@.len() && 0 <= b < post.entries@.len()
                            && (#[trigger] post.entries@[a]).0 == (#[trigger] post.entries@[b]).0
                        implies a == b by {
                        assert(pre.entries@[a].0 == post.entries@[a].0);
                        assert(pre.entries@[b].0 == post.entries@[b].0);
                    }
                    assert forall|k2: ActorId| post.has_key(k2) == pre.has_key(k2) by {
                        if post.has_key(k2) {
                            let j = choose|j: int| 0 <= j < post.entries@.len() && (#[trigger] post.entries@[j]).0 == k2;
                            assert(pre.entries@[j].0 == k2);
                        }
                        if pre.has_key(k2) {
                            let j = choose|j: int| 0 <= j < pre.entries@.len() && (#[trigger] pre.entries@[j]).0 == k2;
                            assert(post.entries@[j].0 == k2);
                        }
                    }
                    assert forall|k2: ActorId| #[trigger] post@.contains_key(k2) implies
                        post@[k2] == pre@.insert(k, v@)[k2] by {
                        let j = post.index_of(k2);
                        post.lemma_entry(j);
                        if j != i {
                            pre.lemma_entry(j);
                        }
                    }
                    assert(post@ =~= pre@.insert(k, v@));
                }
            },
            None => {
                let mut entries = Vec::new();
                std::mem::swap(&mut entries, &mut self.entries);
                entries.push((k, v));
                self.entries = entries;
                proof {
                    let post = *self;
                    let n = pre.entries@.len();
                    assert forall|j: int| 0 <= j < n implies (#[trigger] pre.entries@[j]).0 != k by {
                        if pre.entries@[j].0 == k {
                            pre.lemma_entry(j);
                        }
                    }
                    assert forall|a: int, b: int|
                        0 <= a < post.entries@.len() && 0 <= b < post.entries@.len()
                            && (#[trigger] post.entries@[a]).0 == (#[trigger] post.entries@[b]).0
                        implies a == b by {
                        if a < n && b < n {
                            assert(pre.entries@[a] == post.entries@[a]);
                            assert(pre.entries@[b] == post.entries@[b]);
                        } else if a < n {
                            assert(pre.entries@[a] == post.entries@[a]);
                        } else if b < n {
                            assert(pre.entries@[b] == post.entries@[b]);
                        }
                    }
                    assert forall|k2: ActorId| post.has_key(k2) == (pre.has_key(k2) || k2 == k) by {
                        if post.has_key(k2) {
                            let j = choose|j: int| 0 <= j < post.entries@.len() && (#[trigger] post.entries@[j]).0 == k2;
                            if j < n {
                                assert(pre.entries@[j].0 == k2);
                            }
                        }
                        if pre.has_key(k2) {
                            let j = choose|j: int| 0 <= j < pre.entries@.len() && (#[trigger] pre.entries@[j]).0 == k2;
                            assert(post.entries@[j].0 == k2);
                        }
                        if k2 == k {
                            assert(post.entries@[n as int].0 == k);
                        }
                    }
                    assert forall|k2: ActorId| #[trigger] post@.contains_key(k2) implies
                        post@[k2] == pre@.insert(k, v@)[k2] by {
                        let j = post.index_of(k2);
                        post.lemma_entry(j);
                        if j < n {
                            assert(pre.entries@[j] == post.entries@[j]);
                            pre.lemma_entry(j);
                        }
                    }
                    assert(post@ =~= pre@.insert(k, v@));
                }
            },
        }
    }

    /// Takes the value of `k` out of the map, if it has one.
    pub fn remove(&mut self, k: &ActorId) -> (r: Option<V>)
        ensures
            final(self)@ == old(self)@.remove(*k),
            r is Some == old(self)@.contains_key(*k),
            r matches Some(v) ==> v@ == old(self)@[*k],
    {
        proof {
            use_type_invariant(&*self);
        }
        let ghost pre = *self;
        match self.find(k) {
            None => {
                assert(self@ =~= pre@.remove(*k));
                None
            },
            Some(i) => {
                let mut entries = Vec::new();
                std::mem::swap(&mut entries, &mut self.entries);
                let (_, v) = entries.remove(i);
                self.entries = entries;
                proof {
                    let post = *self;
                    let n = pre.entries@.len();
                    assert forall|j: int| 0 <= j < post.entries@.len() implies
                        #[trigger] post.entries@[j] == pre.entries@[if j < i { j } else { j + 1 }] by {}
                    assert forall|a: int, b: int|
                        0 <= a < post.entries@.len() && 0 <= b < post.entries@.len()
                            && (#[trigger] post.entries@[a]).0 == (#[trigger] post.entries@[b]).0
                        implies a == b by {
                        let a2 = if a < i { a } else { a + 1 };
                        let b2 = if b < i { b } else { b + 1 };
                        assert(pre.entries@[a2] == post.entries@[a]);
                        assert(pre.entries@[b2] == post.entries@[b]);
                    }
                    assert forall|k2: ActorId| post.has_key(k2) == (pre.has_key(k2) && k2 != *k) by {
                        if post.has_key(k2) {
                            let j = choose|j: int| 0 <= j < post.entries@.len() && (#[trigger] post.entries@[j]).0 == k2;
                            let j2 = if j < i { j } else { j + 1 };
                            assert(pre.entries@[j2] == post.entries@[j]);
                            assert(pre.entries@[j2].0 == k2);
                            pre.lemma_entry(j2);
                            pre.lemma_entry(i as int);
                        }
                        if pre.has_key(k2) && k2 != *k {
                            let j = choose|j: int| 0 <= j < pre.entries@.len() && (#[trigger] pre.entries@[j]).0 == k2;
                            if j < i {
                                assert(post.entries@[j] == pre.entries@[j]);
                            } else {
                                assert(j != i);
                                assert(post.entries@[j - 1] == pre.entries@[j]);
                            }
                        }
                    }
                    assert forall|k2: ActorId| #[trigger] post@.contains_key(k2) implies
                        post@[k2] == pre@.remove(*k)[k2] by {
                        let j = post.index_of(k2);
                        post.lemma_entry(j);
                        let j2 = if j < i { j } else { j + 1 };
                        assert(pre.entries@[j2] == post.entries@[j]);
                        pre.lemma_entry(j2);
                    }
                    assert(post@ =~= pre@.remove(*k));
                }
                Some(v)
            },
        }
    }

    /// The entries, each key once, in storage order.
    pub fn entries(&self) -> (r: &Vec<(ActorId, V)>)
        ensures
            forall|i: int| 0 <= i < r@.len() ==> self@.contains_key((#[trigger] r@[i]).0)
                && self@[r@[i].0] == r@[i].1@,
            forall|k: ActorId| #[trigger] self@.contains_key(k) ==>
                exists|i: int| 0 <= i < r@.len() && (#[trigger] r@[i]).0 == k,
    {
        proof {
            use_type_invariant(self);
            assert forall|i: int| 0 <= i < self.entries@.len() implies self@.contains_key((#[trigger] self.entries@[i]).0)
                && self@[self.entries@[i].0] == self.entries@[i].1@ by {
                self.lemma_entry(i);
            }
        }
        &self.entries
    }
}

} // verus!
