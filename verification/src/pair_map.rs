//! A map whose keys are pairs of integers.
//!
//! The ledger keeps its records and indexes under composite keys. `PairMap`
//! stores them in two levels of hash maps and presents them as one
//! mathematical map from pairs to values.

use std::collections::HashMap;
use vstd::prelude::*;

verus! {

broadcast use vstd::std_specs::hash::group_hash_axioms;

/// A finite map from pairs `(u128, u128)` to values.
pub struct PairMap<V> {
    rows: HashMap<u128, HashMap<u128, V>>,
}

impl<V> View for PairMap<V> {
    type V = Map<(u128, u128), V>;

    closed spec fn view(&self) -> Map<(u128, u128), V> {
        Map::new(
            |k: (u128, u128)| self.rows@.contains_key(k.0) && self.rows@[k.0]@.contains_key(k.1),
            |k: (u128, u128)| self.rows@[k.0]@[k.1],
        )
    }
}

impl<V> PairMap<V> {
    /// An empty map.
    pub fn new() -> (m: Self)
        ensures
            m@ == Map::<(u128, u128), V>::empty(),
    {
        let m = PairMap { rows: HashMap::new() };
        assert(m@ =~= Map::<(u128, u128), V>::empty());
        m
    }

    /// Whether a value is stored under `(a, b)`.
    pub fn contains_key(&self, a: u128, b: u128) -> (found: bool)
        ensures
            found == self@.contains_key((a, b)),
    {
        match self.rows.get(&a) {
            Some(row) => row.contains_key(&b),
            None => false,
        }
    }

    /// The value stored under `(a, b)`, if there is one.
    pub fn get(&self, a: u128, b: u128) -> (found: Option<&V>)
        ensures
            match found {
                Some(v) => self@.contains_key((a, b)) && *v == self@[(a, b)],
                None => !self@.contains_key((a, b)),
            },
    {
        match self.rows.get(&a) {
            Some(row) => row.get(&b),
            None => None,
        }
    }

    /// Stores `v` under `(a, b)`, replacing what was there.
    pub fn insert(&mut self, a: u128, b: u128, v: V)
        ensures
            final(self)@ == old(self)@.insert((a, b), v),
    {
        let mut row = match self.rows.remove(&a) {
            Some(row) => row,
            None => HashMap::new(),
        };
        row.insert(b, v);
        self.rows.insert(a, row);
        assert(self@ =~= old(self)@.insert((a, b), v));
    }

    /// Takes the value stored under `(a, b)` out of the map.
    pub fn remove(&mut self, a: u128, b: u128) -> (taken: Option<V>)
        ensures
            final(self)@ == old(self)@.remove((a, b)),
            match taken {
                Some(v) => old(self)@.contains_key((a, b)) && v == old(self)@[(a, b)],
                None => !old(self)@.contains_key((a, b)),
            },
    {
        match self.rows.remove(&a) {
            Some(mut row) => {
                let taken = row.remove(&b);
                self.rows.insert(a, row);
                assert(self@ =~= old(self)@.remove((a, b)));
                taken
            },
            None => {
                assert(self@ =~= old(self)@.remove((a, b)));
                None
            },
        }
    }
}

} // verus!
