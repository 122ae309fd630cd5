//! Registry of hosted instances, keyed by internal id.
//!
//! An instance is read or changed by taking it out of the registry and putting
//! it back.
use vstd::prelude::*;
use dashmap::DashMap;
use std::collections::hash_map::RandomState;

use super::instance::Instance;

verus! {

/// The entries of the instance map.
pub uninterp spec fn instance_entries(m: DashMap<u8, Instance, RandomState>) -> Map<u8, Instance>;

/// `DashMap::new`: an empty map.
#[verifier::external_body]
fn instances_new() -> (map: DashMap<u8, Instance, RandomState>)
    ensures
        instance_entries(map) =~= Map::empty(),
{
    DashMap::new()
}

/// `DashMap::insert`: the key now maps to the value; other keys keep theirs.
#[verifier::external_body]
fn instances_insert(map: &mut DashMap<u8, Instance, RandomState>, id: u8, inst: Instance)
    ensures
        instance_entries(*final(map)) == instance_entries(*old(map)).insert(id, inst),
{
    map.insert(id, inst);
}

/// `DashMap::remove`: the entry of the key goes away and is handed back.
#[verifier::external_body]
fn instances_remove(map: &mut DashMap<u8, Instance, RandomState>, id: u8) -> (i: Option<Instance>)
    ensures
        instance_entries(*final(map)) == instance_entries(*old(map)).remove(id),
        i == (if instance_entries(*old(map)).contains_key(id) {
            Some(instance_entries(*old(map))[id])
        } else {
            None
        }),
{
    map.remove(&id).map(|e| e.1)
}

/// `DashMap::contains_key`.
#[verifier::external_body]
fn instances_contains(map: &DashMap<u8, Instance, RandomState>, id: u8) -> (b: bool)
    ensures
        b == instance_entries(*map).contains_key(id),
{
    map.contains_key(&id)
}

/// `DashMap::len`: the number of entries.
#[verifier::external_body]
fn instances_len(map: &DashMap<u8, Instance, RandomState>) -> (n: usize)
    ensures
        n == instance_entries(*map).dom().len(),
{
    map.len()
}

/// The keys, collected from `DashMap::iter`: each key once, in an order the
/// map does not fix.
#[verifier::external_body]
fn instances_keys(map: &DashMap<u8, Instance, RandomState>) -> (ids: Vec<u8>)
    ensures
        ids@.no_duplicates(),
        ids@.to_set() == instance_entries(*map).dom(),
{
    map.iter().map(|e| *e.key()).collect()
}

/// Global registry of instances.
#[derive(Debug)]
pub struct InstanceManager {
    instances: DashMap<u8, Instance, RandomState>,
}

impl View for InstanceManager {
    type V = Map<u8, Instance>;

    closed spec fn view(&self) -> Map<u8, Instance> {
        instance_entries(self.instances)
    }
}

impl InstanceManager {
    /// Every instance is well formed and stored under its own internal id.
    pub open spec fn wf(&self) -> bool {
        &&& self@.dom().finite()
        &&& forall|k: u8| #[trigger] self@.contains_key(k) ==> self@[k].wf() && self@[k].internal_id == k
    }

    pub fn new() -> (m: Self)
        ensures
            m.wf(),
            m@ == Map::<u8, Instance>::empty(),
    {
        InstanceManager { instances: instances_new() }
    }

    /// Inserts an instance under its internal id, replacing any stored there.
    pub fn add(&mut self, instance: Instance)
        requires
            old(self).wf(),
            instance.wf(),
        ensures
            final(self).wf(),
            final(self)@ == old(self)@.insert(instance.internal_id, instance),
    {
        let id = instance.internal_id;
        instances_insert(&mut self.instances, id, instance);
    }

    /// Removes and returns the instance with internal id `id`.
    pub fn remove(&mut self, id: u8) -> (i: Option<Instance>)
        requires
            old(self).wf(),
        ensures
            final(self).wf(),
            final(self)@ == old(self)@.remove(id),
            i == (if old(self)@.contains_key(id) {
                Some(old(self)@[id])
            } else {
                None::<Instance>
            }),
            i matches Some(x) ==> x.wf() && x.internal_id == id,
    {
        instances_remove(&mut self.instances, id)
    }

    pub fn contains(&self, id: u8) -> (b: bool)
        ensures
            b == self@.contains_key(id),
    {
        instances_contains(&self.instances, id)
    }

    /// The number of hosted instances.
    pub fn count(&self) -> (n: usize)
        ensures
            n == self@.dom().len(),
    {
        instances_len(&self.instances)
    }

    /// The internal ids of all instances, each once, in no fixed order.
    pub fn ids(&self) -> (ids: Vec<u8>)
        ensures
            ids@.no_duplicates(),
            ids@.to_set() == self@.dom(),
    {
        instances_keys(&self.instances)
    }

    /// The lowest internal id not in use (`u8::MAX` when every lower id is taken).
    pub fn next_internal_id(&self) -> (id: u8)
        ensures
            id < u8::MAX ==> !self@.contains_key(id),
            forall|k: u8| k < id ==> self@.contains_key(k),
    {
        let mut id: u8 = 0;
        while id < u8::MAX
            invariant
                forall|k: u8| k < id ==> instance_entries(self.instances).contains_key(k),
            decreases u8::MAX - id,
        {
            if !instances_contains(&self.instances, id) {
                return id;
            }
            id = id + 1;
        }
        id
    }
}

} // verus!
