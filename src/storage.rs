//! The storage slots of one account: a map from 256-bit key to 256-bit value.
use vstd::prelude::*;
use crate::assoc::{keys_unique, map_of, lemma_map_of_contains, lemma_map_of_index, lemma_map_of_remove, lemma_map_of_push, lemma_unique_drop_last};
use crate::words::Hash256;

verus! {

/// The part of `m` whose values are not the all-zero word.
pub open spec fn nonzero_part(m: Map<Hash256, Hash256>) -> Map<Hash256, Hash256> {
    Map::new(|k: Hash256| m.contains_key(k) && !m[k].spec_is_zero(), |k: Hash256| m[k])
}

/// One storage update: a zero value deletes the key, any other value sets it.
pub open spec fn update_slot(m: Map<Hash256, Hash256>, key: Hash256, value: Hash256) -> Map<
    Hash256,
    Hash256,
> {
    if value.spec_is_zero() {
        m.remove(key)
    } else {
        m.insert(key, value)
    }
}

/// The storage updates `us` applied to `m` in order.
pub open spec fn merge_updates(m: Map<Hash256, Hash256>, us: Seq<(Hash256, Hash256)>) -> Map<
    Hash256,
    Hash256,
>
    decreases us.len(),
{
    if us.len() == 0 {
        m
    } else {
        update_slot(merge_updates(m, us.drop_last()), us.last().0, us.last().1)
    }
}

/// Storage slots in insertion order, each key once.
#[derive(Clone, Debug)]
pub struct StorageMap {
    entries: Vec<(Hash256, Hash256)>,
}

impl View for StorageMap {
    type V = Map<Hash256, Hash256>;

    closed spec fn view(&self) -> Map<Hash256, Hash256> {
        map_of(self.entries@)
    }
}

impl StorageMap {
    pub closed spec fn wf(&self) -> bool {
        keys_unique(self.entries@)
    }

    pub fn new() -> (r: StorageMap)
        ensures
            r.wf(),
            r@ == Map::<Hash256, Hash256>::empty(),
    {
        StorageMap { entries: Vec::new() }
    }

    pub fn len(&self) -> (r: usize)
        requires
            self.wf(),
        ensures
            r == self@.len(),
    {
        proof {
            self.lemma_len();
        }
        self.entries.len()
    }

    proof fn lemma_len(&self)
        requires
            self.wf(),
        ensures
            self@.dom().finite(),
            self@.len() == self.entries@.len(),
    {
        lemma_len_of(self.entries@);
    }

    /// The pairs in the order in which they are kept.
    pub fn entries(&self) -> (r: &Vec<(Hash256, Hash256)>)
        ensures
            map_of(r@) == self@,
    {
        &self.entries
    }

    fn find(&self, key: &Hash256) -> (r: Option<usize>)
        requires
            self.wf(),
        ensures
            match r {
                Some(i) => i < self.entries@.len() && self.entries@[i as int].0 == *key,
                None => !self@.contains_key(*key),
            },
    {
        let mut i: usize = 0;
        while i < self.entries.len()
            invariant
                i <= self.entries@.len(),
                forall|j: int| 0 <= j < i ==> self.entries@[j].0 != *key,
            decreases self.entries@.len() - i,
        {
            if self.entries[i].0 == *key {
                return Some(i);
            }
            i = i + 1;
        }
        proof {
            lemma_map_of_contains(self.entries@, *key);
        }
        None
    }

    pub fn contains_key(&self, key: &Hash256) -> (r: bool)
        requires
            self.wf(),
        ensures
            r == self@.contains_key(*key),
    {
        match self.find(key) {
            Some(i) => {
                proof {
                    lemma_map_of_index(self.entries@, i as int);
                }
                true
            },
            None => false,
        }
    }

    pub fn get(&self, key: &Hash256) -> (r: Option<Hash256>)
        requires
            self.wf(),
        ensures
            match r {
                Some(v) => self@.contains_key(*key) && self@[*key] == v,
                None => !self@.contains_key(*key),
            },
    {
        match self.find(key) {
            Some(i) => {
                proof {
                    lemma_map_of_index(self.entries@, i as int);
                }
                Some(self.entries[i].1)
            },
            None => None,
        }
    }

    pub fn remove(&mut self, key: &Hash256)
        requires
            old(self).wf(),
        ensures
            final(self).wf(),
            final(self)@ == old(self)@.remove(*key),
    {
        match self.find(key) {
            Some(i) => {
                proof {
                    lemma_map_of_remove(self.entries@, i as int);
                }
                self.entries.remove(i);
            },
            None => {
                assert(self@ =~= self@.remove(*key));
            },
        }
    }

    pub fn insert(&mut self, key: Hash256, value: Hash256)
        requires
            old(self).wf(),
        ensures
            final(self).wf(),
            final(self)@ == old(self)@.insert(key, value),
    {
        self.remove(&key);
        proof {
            lemma_map_of_push(self.entries@, (key, value));
        }
        self.entries.push((key, value));
        assert(self@ =~= old(self)@.insert(key, value));
    }

    /// Drops every slot whose value is the all-zero word.
    pub fn prune_zeros(&mut self)
        requires
            old(self).wf(),
        ensures
            final(self).wf(),
            final(self)@ == nonzero_part(old(self)@),
    {
        let ghost s = self.entries@;
        let mut kept: Vec<(Hash256, Hash256)> = Vec::new();
        let mut i: usize = 0;
        while i < self.entries.len()
            invariant
                s == self.entries@,
                keys_unique(s),
                i <= s.len(),
                keys_unique(kept@),
                map_of(kept@) == nonzero_part(map_of(s.take(i as int))),
            decreases s.len() - i,
        {
            let p = self.entries[i];
            proof {
                assert(s.take(i + 1).drop_last() =~= s.take(i as int));
                assert(s.take(i + 1).last() == p);
                lemma_map_of_contains(s.take(i as int), p.0);
                if map_of(s.take(i as int)).contains_key(p.0) {
                    let j = choose|j: int| 0 <= j < i && s.take(i as int)[j].0 == p.0;
                    assert(s[j] == s.take(i as int)[j]);
                }
            }
            if !p.1.is_zero() {
                proof {
                    lemma_map_of_push(kept@, p);
                }
                kept.push(p);
            }
            assert(map_of(kept@) =~= nonzero_part(map_of(s.take(i + 1))));
            i = i + 1;
        }
        assert(s.take(s.len() as int) =~= s);
        self.entries = kept;
    }

    /// Applies the updates in order: a zero value removes its key, another value
    /// sets it.
    pub fn merge(&mut self, updates: &Vec<(Hash256, Hash256)>)
        requires
            old(self).wf(),
        ensures
            final(self).wf(),
            final(self)@ == merge_updates(old(self)@, updates@),
    {
        let ghost m0 = self@;
        let mut i: usize = 0;
        while i < updates.len()
            invariant
                self.wf(),
                i <= updates@.len(),
                self@ == merge_updates(m0, updates@.take(i as int)),
            decreases updates@.len() - i,
        {
            let (key, value) = updates[i];
            proof {
                assert(updates@.take(i + 1).drop_last() =~= updates@.take(i as int));
            }
            if value.is_zero() {
                self.remove(&key);
            } else {
                self.insert(key, value);
            }
            i = i + 1;
        }
        assert(updates@.take(updates@.len() as int) =~= updates@);
    }
}

proof fn lemma_len_of(s: Seq<(Hash256, Hash256)>)
    requires
        keys_unique(s),
    ensures
        map_of(s).dom().finite(),
        map_of(s).len() == s.len(),
    decreases s.len(),
{
    if s.len() > 0 {
        let t = s.drop_last();
        lemma_unique_drop_last(s);
        lemma_len_of(t);
        lemma_map_of_contains(t, s.last().0);
        if map_of(t).contains_key(s.last().0) {
            let j = choose|j: int| 0 <= j < t.len() && t[j].0 == s.last().0;
            assert(t[j] == s[j]);
        }
    }
}

} // verus!
