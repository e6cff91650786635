//! One-to-many mapping from a key to a set of values.
use std::collections::{HashMap, HashSet};
use vstd::prelude::*;

verus! {

broadcast use vstd::std_specs::hash::group_hash_axioms;

/// Maps each key to a set of unique, unordered values.
pub struct SetMap {
    map: HashMap<u64, HashSet<u64>>,
}

impl View for SetMap {
    type V = Map<u64, Set<u64>>;

    closed spec fn view(&self) -> Map<u64, Set<u64>> {
        Map::new(|k: u64| self.map@.contains_key(k), |k: u64| self.map@[k]@)
    }
}

impl SetMap {
    /// The values stored under `k`; empty where `k` has no entry.
    pub open spec fn bucket(&self, k: u64) -> Set<u64> {
        if self@.contains_key(k) {
            self@[k]
        } else {
            Set::empty()
        }
    }

    pub fn new() -> (r: SetMap)
        ensures
            r@ == Map::<u64, Set<u64>>::empty(),
    {
        let r = SetMap { map: HashMap::new() };
        assert(r@ =~= Map::<u64, Set<u64>>::empty());
        r
    }

    /// Adds `v` to the set of `k`.
    pub fn insert(&mut self, k: u64, v: u64)
        ensures
            final(self)@ == old(self)@.insert(k, old(self).bucket(k).insert(v)),
    {
        let mut set = match self.map.remove(&k) {
            Some(s) => s,
            None => HashSet::new(),
        };
        set.insert(v);
        self.map.insert(k, set);
        assert(self@ =~= old(self)@.insert(k, old(self).bucket(k).insert(v)));
    }

    /// Removes `v` from the set of `k`, if it is there.
    pub fn remove(&mut self, k: u64, v: u64)
        ensures
            final(self)@ == (if old(self)@.contains_key(k) {
                old(self)@.insert(k, old(self)@[k].remove(v))
            } else {
                old(self)@
            }),
    {
        match self.map.remove(&k) {
            Some(mut set) => {
                set.remove(&v);
                self.map.insert(k, set);
                assert(self@ =~= old(self)@.insert(k, old(self)@[k].remove(v)));
            },
            None => {
                assert(self@ =~= old(self)@);
            },
        }
    }

    /// The set stored under `k`, if any.
    pub fn get(&self, k: u64) -> (r: Option<&HashSet<u64>>)
        ensures
            match r {
                Some(s) => self@.contains_key(k) && s@ == self@[k],
                None => !self@.contains_key(k),
            },
    {
        self.map.get(&k)
    }

    /// Whether `v` is in the set of `k`.
    pub fn contains(&self, k: u64, v: u64) -> (r: bool)
        ensures
            r == self.bucket(k).contains(v),
    {
        match self.map.get(&k) {
            Some(s) => s.contains(&v),
            None => false,
        }
    }
}

impl Default for SetMap {
    fn default() -> (r: SetMap)
        ensures
            r@ == Map::<u64, Set<u64>>::empty(),
    {
        SetMap::new()
    }
}

} // verus!
