//! The per-session sensor registry: every discovered sensor's descriptor,
//! keyed by identity, with insert-if-absent semantics.

use vstd::prelude::*;
use std::collections::HashMap;
use crate::sensor::SensorDescriptor;

verus! {

broadcast use vstd::std_specs::hash::group_hash_axioms;

pub struct Registry {
    map: HashMap<u128, SensorDescriptor>,
}

impl View for Registry {
    type V = Map<u128, SensorDescriptor>;

    closed spec fn view(&self) -> Map<u128, SensorDescriptor> {
        self.map@
    }
}

impl Registry {
    pub fn new() -> (r: Self)
        ensures
            r@ == Map::<u128, SensorDescriptor>::empty(),
    {
        Registry { map: HashMap::new() }
    }

    pub fn contains(&self, id: u128) -> (b: bool)
        ensures
            b == self@.contains_key(id),
    {
        self.map.contains_key(&id)
    }

    pub fn get(&self, id: u128) -> (r: Option<&SensorDescriptor>)
        ensures
            match r {
                Some(d) => self@.contains_key(id) && *d == self@[id],
                None => !self@.contains_key(id),
            },
    {
        self.map.get(&id)
    }

    /// Insert-if-absent: a descriptor for an already-registered id is
    /// ignored, so registered descriptors are immutable.
    pub fn insert_new(&mut self, d: SensorDescriptor) -> (fresh: bool)
        ensures
            fresh == !old(self)@.contains_key(d.id),
            fresh ==> final(self)@ == old(self)@.insert(d.id, d),
            !fresh ==> *final(self) == *old(self),
    {
        if self.map.contains_key(&d.id) {
            false
        } else {
            self.map.insert(d.id, d);
            true
        }
    }

    pub fn remove(&mut self, id: u128) -> (had: bool)
        ensures
            had == old(self)@.contains_key(id),
            final(self)@ == old(self)@.remove(id),
    {
        self.map.remove(&id).is_some()
    }

    pub fn len(&self) -> (n: usize)
        ensures
            n == self@.dom().len(),
    {
        self.map.len()
    }

    pub fn clear(&mut self)
        ensures
            final(self)@ == Map::<u128, SensorDescriptor>::empty(),
    {
        self.map.clear()
    }
}

} // verus!
