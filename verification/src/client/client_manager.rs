//! Registry of connected clients, keyed by client id.
use vstd::prelude::*;
use dashmap::DashMap;
use std::collections::hash_map::RandomState;

use super::client::Client;

verus! {

#[verifier::external_type_specification]
#[verifier::external_body]
#[verifier::reject_recursive_types(K)]
#[verifier::reject_recursive_types(V)]
#[verifier::reject_recursive_types(S)]
pub struct ExDashMap<K, V, S>(DashMap<K, V, S>);

/// The entries of the client map.
pub uninterp spec fn client_entries(m: DashMap<u16, Client, RandomState>) -> Map<u16, Client>;

/// `DashMap::new`: an empty map.
#[verifier::external_body]
fn clients_new() -> (map: DashMap<u16, Client, RandomState>)
    ensures
        client_entries(map) =~= Map::empty(),
{
    DashMap::new()
}

/// `DashMap::insert`: the key now maps to the value; other keys keep theirs.
#[verifier::external_body]
fn clients_insert(map: &mut DashMap<u16, Client, RandomState>, id: u16, client: Client)
    ensures
        client_entries(*final(map)) == client_entries(*old(map)).insert(id, client),
{
    map.insert(id, client);
}

/// `DashMap::remove`: the entry of the key goes away and is handed back.
#[verifier::external_body]
fn clients_remove(map: &mut DashMap<u16, Client, RandomState>, id: u16) -> (c: Option<Client>)
    ensures
        client_entries(*final(map)) == client_entries(*old(map)).remove(id),
        c == (if client_entries(*old(map)).contains_key(id) {
            Some(client_entries(*old(map))[id])
        } else {
            None
        }),
{
    map.remove(&id).map(|e| e.1)
}

/// `DashMap::get`, then a clone of the value found. The clone is claimed
/// equal to the stored client: `Client`'s derived `Clone` clones each field
/// (integers, strings, the challenge bytes, the optional user) and keeps no
/// other state.
#[verifier::external_body]
fn clients_get(map: &DashMap<u16, Client, RandomState>, id: u16) -> (c: Option<Client>)
    ensures
        c == (if client_entries(*map).contains_key(id) {
            Some(client_entries(*map)[id])
        } else {
            None
        }),
{
    map.get(&id).map(|r| r.value().clone())
}

/// `DashMap::contains_key`.
#[verifier::external_body]
fn clients_contains(map: &DashMap<u16, Client, RandomState>, id: u16) -> (b: bool)
    ensures
        b == client_entries(*map).contains_key(id),
{
    map.contains_key(&id)
}

/// `DashMap::len`: the number of entries.
#[verifier::external_body]
fn clients_len(map: &DashMap<u16, Client, RandomState>) -> (n: usize)
    ensures
        n == client_entries(*map).dom().len(),
{
    map.len()
}

/// The keys, collected from `DashMap::iter`: each key once, in an order the
/// map does not fix.
#[verifier::external_body]
fn clients_keys(map: &DashMap<u16, Client, RandomState>) -> (ids: Vec<u16>)
    ensures
        ids@.no_duplicates(),
        ids@.to_set() == client_entries(*map).dom(),
{
    map.iter().map(|e| *e.key()).collect()
}

/// Global registry of connected clients.
#[derive(Debug)]
pub struct ClientManager {
    clients: DashMap<u16, Client, RandomState>,
}

impl View for ClientManager {
    type V = Map<u16, Client>;

    closed spec fn view(&self) -> Map<u16, Client> {
        client_entries(self.clients)
    }
}

impl ClientManager {
    /// Every client is stored under its own id, and the registry is finite.
    pub open spec fn wf(&self) -> bool {
        &&& self@.dom().finite()
        &&& forall|k: u16| #[trigger] self@.contains_key(k) ==> self@[k].id == k
    }

    pub fn new() -> (m: Self)
        ensures
            m.wf(),
            m@ == Map::<u16, Client>::empty(),
    {
        ClientManager { clients: clients_new() }
    }

    /// Inserts a client under its id, replacing any client stored there.
    pub fn add(&mut self, client: Client)
        requires
            old(self).wf(),
        ensures
            final(self).wf(),
            final(self)@ == old(self)@.insert(client.id, client),
    {
        let id = client.id;
        clients_insert(&mut self.clients, id, client);
    }

    /// Removes and returns the client with id `id`.
    pub fn remove(&mut self, id: u16) -> (c: Option<Client>)
        requires
            old(self).wf(),
        ensures
            final(self).wf(),
            final(self)@ == old(self)@.remove(id),
            c == (if old(self)@.contains_key(id) {
                Some(old(self)@[id])
            } else {
                None
            }),
    {
        clients_remove(&mut self.clients, id)
    }

    /// The client with id `id`.
    pub fn get(&self, id: u16) -> (c: Option<Client>)
        ensures
            c == (if self@.contains_key(id) {
                Some(self@[id])
            } else {
                None
            }),
    {
        clients_get(&self.clients, id)
    }

    pub fn contains(&self, id: u16) -> (b: bool)
        ensures
            b == self@.contains_key(id),
    {
        clients_contains(&self.clients, id)
    }

    /// The number of connected clients.
    pub fn count(&self) -> (n: usize)
        ensures
            n == self@.dom().len(),
    {
        clients_len(&self.clients)
    }

    /// The ids of all connected clients, each once, in no fixed order.
    pub fn ids(&self) -> (ids: Vec<u16>)
        ensures
            ids@.no_duplicates(),
            ids@.to_set() == self@.dom(),
    {
        clients_keys(&self.clients)
    }

    /// The lowest id not in use, starting from 0 (`u16::MAX` when every lower id is taken).
    pub fn next_id(&self) -> (id: u16)
        ensures
            id < u16::MAX ==> !self@.contains_key(id),
            forall|k: u16| k < id ==> self@.contains_key(k),
    {
        let mut id: u16 = 0;
        while id < u16::MAX
            invariant
                forall|k: u16| k < id ==> client_entries(self.clients).contains_key(k),
            decreases u16::MAX - id,
        {
            if !clients_contains(&self.clients, id) {
                return id;
            }
            id = id + 1;
        }
        id
    }
}

} // verus!
