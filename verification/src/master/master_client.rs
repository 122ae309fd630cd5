//! What the relay decides on the messages of the node server: creating and
//! dropping instances, how many to ask for, and the answers to its queries.
//! The WebSocket session, the JSON and the waiting are the caller's.
use vstd::prelude::*;

use super::messages::{
    ClientInfo, GetClientsResp, GetInstancesResp, GetPlayersReq, GetPlayersResp, InstanceInfo, InstanceSpec,
    PlayerInfo, RequestInstancesResp, SyncInstanceData, SyncInstancesResp,
};
use crate::client::client::Client;
use crate::config::Config;
use crate::handlers::context::{lemma_put_back, AppState};
use crate::hashing::fits_argon2;
use crate::instance::flags::{AUTHORIZE_BOT, NONE, USE_PASSWORD};
use crate::instance::instance::{spec_password_accepts, Instance};
use crate::instance::world::{world_identifier, World};
use crate::instance::InstanceManager;
use crate::player::player_flags::HIDE_IN_LIST;
use crate::player::Player;
use crate::client::user::user_identifier;

verus! {

/// Page size of a client or instance listing that names none.
pub const DEFAULT_LIST_LIMIT: usize = 100;
/// Page size of a player listing that names none.
pub const DEFAULT_PLAYER_LIMIT: usize = 20;

/// Whether `inst` is the fresh instance `iid` made from `spec`: capacity,
/// resend interval, bots allowed in debug mode, password (set whenever it is
/// short enough to hash) and world.
pub open spec fn made_from_spec(inst: Instance, iid: u8, spec: InstanceSpec, config: Config) -> bool {
    let base = if config.debug { AUTHORIZE_BOT } else { NONE };
    &&& inst.wf()
    &&& inst.internal_id == iid
    &&& inst.master_id == spec.id
    &&& inst.capacity == spec.capacity
    &&& inst.property_resend_interval == config.property_resend_interval
    &&& inst.players().len() == 0
    &&& match spec.password {
        None => inst.password_hash() is None && inst.flags == base,
        Some(p) => (inst.password_hash() is Some && spec_password_accepts(inst.password_hash(), p@)
            && inst.flags == base | USE_PASSWORD) || (!fits_argon2(p@) && inst.password_hash() is None && inst.flags == base),
    }
    &&& match spec.world {
        Some(w) => inst.world.master_id == w.id && inst.world.address@ == w.address@ && inst.world.version == w.version,
        None => inst.world.master_id == 0 && inst.world.address@ == crate::constants::SAFE_LOCAL_ADDRESS@
            && inst.world.version == u16::MAX,
    }
}

/// Creates the instance `spec` describes under the lowest free internal id;
/// `None` (and nothing changes) when no id below 255 is free.
pub fn create_instance(state: &mut AppState, spec: InstanceSpec) -> (iid: Option<u8>)
    requires
        old(state).wf(),
    ensures
        final(state).wf(),
        final(state).clients@ == old(state).clients@,
        final(state).config == old(state).config,
        match iid {
            None => final(state).instances@ == old(state).instances@
                && forall|k: u8| k < u8::MAX ==> #[trigger] old(state).instances@.contains_key(k),
            Some(i) => {
                &&& i < u8::MAX
                &&& !old(state).instances@.contains_key(i)
                &&& forall|k: u8| k < i ==> #[trigger] old(state).instances@.contains_key(k)
                &&& final(state).instances@ == old(state).instances@.insert(i, final(state).instances@[i])
                &&& made_from_spec(final(state).instances@[i], i, spec, old(state).config)
            },
        },
{
    let iid = state.instances.next_internal_id();
    if iid == u8::MAX {
        return None;
    }
    let mut inst = Instance::new(iid, spec.id);
    inst.capacity = spec.capacity;
    inst.property_resend_interval = state.config.property_resend_interval;
    if state.config.debug {
        inst.flags = inst.flags | AUTHORIZE_BOT;
    }
    assert(NONE | AUTHORIZE_BOT == AUTHORIZE_BOT) by (bit_vector);
    match spec.password {
        Some(p) => {
            inst.set_password(Some(p));
        },
        None => {},
    }
    match spec.world {
        Some(w) => {
            inst.world = World::new(w.id, w.address, w.version);
        },
        None => {},
    }
    state.instances.add(inst);
    Some(iid)
}

/// A `new_instance` from the node: created under the lowest free internal id
/// when below `max_instances` and an id below 255 is free; `None` otherwise.
pub fn on_new_instance(state: &mut AppState, spec: InstanceSpec) -> (iid: Option<u8>)
    requires
        old(state).wf(),
    ensures
        final(state).wf(),
        final(state).clients@ == old(state).clients@,
        final(state).config == old(state).config,
        old(state).instances@.dom().len() >= old(state).config.max_instances ==> iid is None,
        match iid {
            None => final(state).instances@ == old(state).instances@,
            Some(i) => {
                &&& i < u8::MAX
                &&& !old(state).instances@.contains_key(i)
                &&& forall|k: u8| k < i ==> #[trigger] old(state).instances@.contains_key(k)
                &&& final(state).instances@ == old(state).instances@.insert(i, final(state).instances@[i])
                &&& made_from_spec(final(state).instances@[i], i, spec, old(state).config)
            },
        },
        iid is None && old(state).instances@.dom().len() < old(state).config.max_instances
            ==> forall|k: u8| k < u8::MAX ==> #[trigger] old(state).instances@.contains_key(k),
{
    let count = state.instances.count();
    if count >= state.config.max_instances as usize {
        return None;
    }
    create_instance(state, spec)
}

/// Whether an instance has master id `master_id`.
pub open spec fn has_master_id(m: Map<u8, Instance>, master_id: u32) -> bool {
    exists|k: u8| #[trigger] m.contains_key(k) && m[k].master_id == master_id
}

/// The internal id of an instance with master id `master_id` (which one,
/// when several share it, is left open).
fn find_master_id(state: &mut AppState, master_id: u32) -> (r: Option<u8>)
    requires
        old(state).wf(),
    ensures
        final(state).wf(),
        final(state).clients@ == old(state).clients@,
        final(state).instances@ == old(state).instances@,
        final(state).config == old(state).config,
        match r {
            Some(k) => old(state).instances@.contains_key(k) && old(state).instances@[k].master_id == master_id,
            None => !has_master_id(old(state).instances@, master_id),
        },
{
    let ids = state.instances.ids();
    let ghost insts = old(state).instances@;
    let mut i: usize = 0;
    while i < ids.len()
        invariant
            ids@.to_set() == insts.dom(),
            insts == old(state).instances@,
            i <= ids@.len(),
            state.wf(),
            state.instances@ == insts,
            state.clients@ == old(state).clients@,
            state.config == old(state).config,
            forall|j: int| 0 <= j < i ==> #[trigger] insts[ids@[j]].master_id != master_id,
        decreases ids@.len() - i,
    {
        let iid = ids[i];
        proof {
            assert(ids@.to_set().contains(iid));
        }
        let inst = state.instances.remove(iid).unwrap();
        let hit = inst.master_id == master_id;
        state.instances.add(inst);
        proof { lemma_put_back(insts, iid); }
        if hit {
            return Some(iid);
        }
        i = i + 1;
    }
    proof {
        assert forall|k: u8| #[trigger] insts.contains_key(k) implies insts[k].master_id != master_id by {
            assert(ids@.to_set().contains(k));
            let j = choose|j: int| 0 <= j < ids@.len() && ids@[j] == k;
            assert(insts[ids@[j]].master_id != master_id);
        }
    }
    None
}

/// Whether an instance with master id `master_id` is hosted here.
pub fn has_instance(state: &mut AppState, master_id: u32) -> (b: bool)
    requires
        old(state).wf(),
    ensures
        final(state).wf(),
        final(state).clients@ == old(state).clients@,
        final(state).instances@ == old(state).instances@,
        final(state).config == old(state).config,
        b == has_master_id(old(state).instances@, master_id),
{
    find_master_id(state, master_id).is_some()
}

/// A `drop_instance` from the node: removes an instance with that master id,
/// and says which (`None` when none has it).
pub fn drop_instance(state: &mut AppState, master_id: u32) -> (dropped: Option<u8>)
    requires
        old(state).wf(),
    ensures
        final(state).wf(),
        final(state).clients@ == old(state).clients@,
        final(state).config == old(state).config,
        match dropped {
            Some(k) => old(state).instances@.contains_key(k) && old(state).instances@[k].master_id == master_id
                && final(state).instances@ == old(state).instances@.remove(k),
            None => !has_master_id(old(state).instances@, master_id) && final(state).instances@ == old(state).instances@,
        },
{
    match find_master_id(state, master_id) {
        Some(k) => {
            state.instances.remove(k);
            Some(k)
        },
        None => None,
    }
}

/// Whether an instance with master id `master_id` was in `before` and is gone from `after`.
pub open spec fn dropped_one(before: Map<u8, Instance>, after: Map<u8, Instance>, master_id: u32) -> bool {
    exists|k: u8| #[trigger] before.contains_key(k) && before[k].master_id == master_id && !after.contains_key(k)
}

/// Whether `after` is `before` less, for each master id in `invalid` that
/// `before` holds, one instance with it, and less nothing else.
pub open spec fn invalid_removed(before: Map<u8, Instance>, after: Map<u8, Instance>, invalid: Seq<u32>) -> bool {
    &&& after.dom().subset_of(before.dom())
    &&& forall|k: u8| #[trigger] after.contains_key(k) ==> after[k] == before[k]
    &&& forall|k: u8| #[trigger] before.contains_key(k) && !after.contains_key(k) ==> invalid.contains(before[k].master_id)
    &&& forall|j: int| 0 <= j < invalid.len() && has_master_id(before, #[trigger] invalid[j])
        ==> dropped_one(before, after, invalid[j])
}

/// Removes, for each master id the node reported invalid, an instance that
/// has it (one per report, when several share it).
pub fn remove_invalid(state: &mut AppState, invalid: &Vec<u32>)
    requires
        old(state).wf(),
    ensures
        final(state).wf(),
        final(state).clients@ == old(state).clients@,
        final(state).config == old(state).config,
        invalid_removed(old(state).instances@, final(state).instances@, invalid@),
{
    let ghost start = old(state).instances@;
    let mut i: usize = 0;
    while i < invalid.len()
        invariant
            start == old(state).instances@,
            i <= invalid@.len(),
            state.wf(),
            state.clients@ == old(state).clients@,
            state.config == old(state).config,
            state.instances@.dom().subset_of(start.dom()),
            forall|k: u8| #[trigger] state.instances@.contains_key(k) ==> state.instances@[k] == start[k],
            forall|k: u8| #[trigger] start.contains_key(k) && !state.instances@.contains_key(k)
                ==> invalid@.take(i as int).contains(start[k].master_id),
            forall|j: int| 0 <= j < i && has_master_id(start, #[trigger] invalid@[j])
                ==> dropped_one(start, state.instances@, invalid@[j]),
        decreases invalid@.len() - i,
    {
        let master_id = invalid[i];
        let ghost before = state.instances@;
        match find_master_id(state, master_id) {
            Some(k) => {
                state.instances.remove(k);
                proof {
                    assert(dropped_one(start, state.instances@, master_id)) by {
                        assert(start.contains_key(k) && !state.instances@.contains_key(k));
                    }
                }
            },
            None => {
                proof {
                    if has_master_id(start, master_id) {
                        let k = choose|k: u8| #[trigger] start.contains_key(k) && start[k].master_id == master_id;
                        if state.instances@.contains_key(k) {
                            assert(has_master_id(before, master_id));
                        }
                        assert(dropped_one(start, state.instances@, master_id));
                    }
                }
            },
        }
        proof {
            assert(invalid@.take(i + 1) =~= invalid@.take(i as int).push(master_id));
            assert forall|k: u8| #[trigger] start.contains_key(k) && !state.instances@.contains_key(k)
                implies invalid@.take(i + 1).contains(start[k].master_id) by {
                if before.contains_key(k) {
                    assert(start[k].master_id == master_id);
                    assert(invalid@.take(i + 1)[i as int] == master_id);
                } else {
                    let t = invalid@.take(i as int);
                    let j = choose|j: int| 0 <= j < t.len() && t[j] == start[k].master_id;
                    assert(invalid@.take(i + 1)[j] == start[k].master_id);
                }
            }
            assert forall|j: int| 0 <= j < i + 1 && has_master_id(start, #[trigger] invalid@[j])
                implies dropped_one(start, state.instances@, invalid@[j]) by {
                if j < i {
                    let k = choose|k: u8| #[trigger] start.contains_key(k) && start[k].master_id == invalid@[j] && !before.contains_key(k);
                    assert(!state.instances@.contains_key(k));
                }
            }
        }
        i = i + 1;
    }
    proof {
        assert(invalid@.take(invalid@.len() as int) =~= invalid@);
    }
}

/// What is missing to reach `max_instances` (the count taken modulo 256).
pub open spec fn spec_instances_needed(max_instances: u8, count: nat) -> u8 {
    if (count % 256) < max_instances as nat { (max_instances - (count % 256)) as u8 } else { 0u8 }
}

/// How many instances to ask the node for: what is missing to reach
/// `max_instances` (the count taken modulo 256), never below zero.
pub fn instances_needed(max_instances: u8, count: usize) -> (n: u8)
    ensures
        n == spec_instances_needed(max_instances, count as nat),
{
    let c = #[verifier::truncate] (count as u8);
    assert(c == count % 256) by (bit_vector)
        requires
            c == #[verifier::truncate] (count as u8);
    max_instances.saturating_sub(c)
}

fn copy_spec(s: &InstanceSpec) -> (r: InstanceSpec)
    ensures
        r == *s,
{
    InstanceSpec {
        id: s.id,
        password: match &s.password {
            Some(p) => Some(p.clone()),
            None => None,
        },
        capacity: s.capacity,
        world: match &s.world {
            Some(w) => Some(super::messages::WorldSpec { id: w.id, address: w.address.clone(), version: w.version }),
            None => None,
        },
    }
}

/// Whether the instances of `after` that `before` lacks bring master ids
/// held by no instance of `before`, and by no other new instance.
pub open spec fn new_master_ids_fresh(before: Map<u8, Instance>, after: Map<u8, Instance>) -> bool {
    &&& forall|k: u8| #[trigger] after.contains_key(k) && !before.contains_key(k)
        ==> !has_master_id(before, after[k].master_id)
    &&& forall|a: u8, b: u8| #![trigger after[a], after[b]]
        after.contains_key(a) && after.contains_key(b) && !before.contains_key(a) && !before.contains_key(b) && a != b
        ==> after[a].master_id != after[b].master_id
}

/// Whether `after` is `before` with instances made from `specs` added: each
/// spec is then hosted unless the internal ids ran out, and every added
/// instance brings a master id no other instance holds.
pub open spec fn requested_created(before: Map<u8, Instance>, after: Map<u8, Instance>, specs: Seq<InstanceSpec>, config: Config) -> bool {
    &&& before.dom().subset_of(after.dom())
    &&& forall|k: u8| #[trigger] before.contains_key(k) ==> after[k] == before[k]
    &&& forall|k: u8| #[trigger] after.contains_key(k) && !before.contains_key(k)
        ==> exists|j: int| 0 <= j < specs.len() && #[trigger] made_from_spec(after[k], k, specs[j], config)
    &&& forall|j: int| 0 <= j < specs.len() ==> has_master_id(after, #[trigger] specs[j].id)
        || forall|k: u8| k < u8::MAX ==> #[trigger] after.contains_key(k)
    &&& new_master_ids_fresh(before, after)
}

/// Creates the instances the node handed over, skipping those already
/// hosted, until the internal ids run out.
pub fn create_requested(state: &mut AppState, specs: Vec<InstanceSpec>)
    requires
        old(state).wf(),
    ensures
        final(state).wf(),
        final(state).clients@ == old(state).clients@,
        final(state).config == old(state).config,
        requested_created(old(state).instances@, final(state).instances@, specs@, old(state).config),
{
    let mut i: usize = 0;
    let n = specs.len();
    while i < n
        invariant
            n == specs@.len(),
            i <= n,
            state.wf(),
            state.clients@ == old(state).clients@,
            state.config == old(state).config,
            old(state).instances@.dom().subset_of(state.instances@.dom()),
            forall|k: u8| #[trigger] old(state).instances@.contains_key(k) ==> state.instances@[k] == old(state).instances@[k],
            forall|k: u8| #[trigger] state.instances@.contains_key(k) && !old(state).instances@.contains_key(k)
                ==> exists|j: int| 0 <= j < specs@.len() && #[trigger] made_from_spec(state.instances@[k], k, specs@[j], old(state).config),
            forall|j: int| 0 <= j < i ==> has_master_id(state.instances@, #[trigger] specs@[j].id)
                || forall|k: u8| k < u8::MAX ==> #[trigger] state.instances@.contains_key(k),
            new_master_ids_fresh(old(state).instances@, state.instances@),
        decreases n - i,
    {
        let spec = copy_spec(&specs[i]);
        let ghost before = state.instances@;
        let ghost sp = specs@[i as int];
        if has_instance(state, spec.id) {
            i = i + 1;
            continue;
        }
        let created = create_instance(state, spec);
        match created {
            None => {
                proof {
                    assert(forall|k: u8| k < u8::MAX ==> #[trigger] state.instances@.contains_key(k));
                }
                return;
            },
            Some(k) => {
                proof {
                    assert(made_from_spec(state.instances@[k], k, specs@[i as int], old(state).config));
                    assert(has_master_id(state.instances@, spec.id)) by {
                        assert(state.instances@.contains_key(k));
                    }
                    let after = state.instances@;
                    let start = old(state).instances@;
                    assert(after[k].master_id == sp.id);
                    assert(!has_master_id(before, sp.id));
                    assert forall|a: u8| #[trigger] after.contains_key(a) && !start.contains_key(a)
                        implies !has_master_id(start, after[a].master_id) by {
                        if a != k {
                            assert(before.contains_key(a));
                            assert(after[a] == before[a]);
                        } else {
                            if has_master_id(start, sp.id) {
                                let w = choose|w: u8| #[trigger] start.contains_key(w) && start[w].master_id == sp.id;
                                assert(before.contains_key(w) && before[w] == start[w]);
                            }
                        }
                    }
                    assert forall|a: u8, b: u8| #![trigger after[a], after[b]]
                        after.contains_key(a) && after.contains_key(b) && !start.contains_key(a) && !start.contains_key(b) && a != b
                        implies after[a].master_id != after[b].master_id by {
                        if a == k {
                            assert(before.contains_key(b) && after[b] == before[b]);
                        } else if b == k {
                            assert(before.contains_key(a) && after[a] == before[a]);
                        } else {
                            assert(after[a] == before[a] && after[b] == before[b]);
                            assert(before[a] == before[a] && before[b] == before[b]);
                        }
                    }
                    assert forall|j: int| 0 <= j < i implies has_master_id(state.instances@, #[trigger] specs@[j].id)
                        || forall|kk: u8| kk < u8::MAX ==> #[trigger] state.instances@.contains_key(kk) by {
                        if has_master_id(before, specs@[j].id) {
                            let kk = choose|kk: u8| #[trigger] before.contains_key(kk) && before[kk].master_id == specs@[j].id;
                            assert(state.instances@.contains_key(kk));
                        }
                    }
                }
            },
        }
        i = i + 1;
    }
}

/// What the node link reports while it sets up the instances after connecting.
pub enum ConnectEvent {
    /// The link is up.
    Connected,
    /// The answer to the sync of the hosted instances (`None`: no answer).
    Synced(Option<SyncInstancesResp>),
    /// The answer to the request for instances (`None`: no answer).
    Received(Option<RequestInstancesResp>),
}

/// What the node link does next.
pub enum ConnectAction {
    /// Sync the hosted instances, then report `Synced`.
    Sync,
    /// Ask the node for this many instances, then report `Received`.
    Request(u8),
    /// Sync the hosted instances once more, without waiting on the answer.
    Report,
    /// Nothing more to do.
    Done,
}

/// Ask for `n` instances, or stop when none are missing.
pub open spec fn request_or_done(n: u8) -> ConnectAction {
    if n == 0 {
        ConnectAction::Done
    } else {
        ConnectAction::Request(n)
    }
}

/// The invalid master ids of a sync answer (none when it names none).
pub open spec fn reported_invalid(resp: SyncInstancesResp) -> Seq<u32> {
    match resp.invalid_instances {
        Some(v) => v@,
        None => Seq::empty(),
    }
}

fn request_or_done_now(state: &AppState) -> (a: ConnectAction)
    ensures
        a == request_or_done(spec_instances_needed(state.config.max_instances, state.instances@.dom().len())),
{
    let n = instances_needed(state.config.max_instances, state.instances.count());
    if n == 0 {
        ConnectAction::Done
    } else {
        ConnectAction::Request(n)
    }
}

/// One step of setting up the instances after connecting: a sync first when
/// instances are hosted (stopping when it fails or is rejected, else dropping
/// those reported invalid), then a request for what is missing to reach
/// `max_instances` (none when nothing is missing), then the creation of the
/// instances received and a final sync (none when nothing came back).
pub fn on_connected_step(state: &mut AppState, ev: ConnectEvent) -> (a: ConnectAction)
    requires
        old(state).wf(),
    ensures
        final(state).wf(),
        final(state).clients@ == old(state).clients@,
        final(state).config == old(state).config,
        ({
            let before = old(state).instances@;
            let after = final(state).instances@;
            let max = old(state).config.max_instances;
            match ev {
                ConnectEvent::Connected => after == before && a == (if before.dom().len() > 0 {
                    ConnectAction::Sync
                } else {
                    request_or_done(spec_instances_needed(max, before.dom().len()))
                }),
                ConnectEvent::Synced(r) => match r {
                    Some(resp) => if resp.success {
                        invalid_removed(before, after, reported_invalid(resp))
                            && a == request_or_done(spec_instances_needed(max, after.dom().len()))
                    } else {
                        after == before && a == ConnectAction::Done
                    },
                    None => after == before && a == ConnectAction::Done,
                },
                ConnectEvent::Received(r) => match r {
                    Some(resp) => if resp.success && resp.instances@.len() > 0 {
                        requested_created(before, after, resp.instances@, old(state).config) && a == ConnectAction::Report
                    } else {
                        after == before && a == ConnectAction::Done
                    },
                    None => after == before && a == ConnectAction::Done,
                },
            }
        }),
{
    match ev {
        ConnectEvent::Connected => {
            if state.instances.count() > 0 {
                ConnectAction::Sync
            } else {
                request_or_done_now(state)
            }
        },
        ConnectEvent::Synced(Some(resp)) => {
            if resp.success {
                let invalid = match resp.invalid_instances {
                    Some(v) => v,
                    None => Vec::new(),
                };
                remove_invalid(state, &invalid);
                request_or_done_now(state)
            } else {
                ConnectAction::Done
            }
        },
        ConnectEvent::Synced(None) => ConnectAction::Done,
        ConnectEvent::Received(Some(resp)) => {
            if resp.success && resp.instances.len() > 0 {
                create_requested(state, resp.instances);
                ConnectAction::Report
            } else {
                ConnectAction::Done
            }
        },
        ConnectEvent::Received(None) => ConnectAction::Done,
    }
}

/// The longest wait between two connection attempts, in seconds.
pub const MAX_BACKOFF_SECS: u64 = 30;

/// The wait before the next connection attempt after one of `current`
/// seconds: doubled, up to `MAX_BACKOFF_SECS`.
pub fn next_backoff_secs(current: u64) -> (n: u64)
    ensures
        n == (if current * 2 < MAX_BACKOFF_SECS { current * 2 } else { MAX_BACKOFF_SECS as int }),
{
    if current < MAX_BACKOFF_SECS / 2 {
        current * 2
    } else {
        MAX_BACKOFF_SECS
    }
}

/// The first and last positions of a page of `n` items starting at `offset`
/// and holding at most `limit` of them.
pub open spec fn page_bounds(n: nat, offset: nat, limit: nat) -> (int, int) {
    let start = if offset < n { offset as int } else { n as int };
    let end = if offset + limit < n { (offset + limit) as int } else { n as int };
    (start, end)
}

/// The page size asked for, or `default` when none was.
pub open spec fn limit_or(limit: usize, default: usize) -> usize {
    if limit > 0 {
        limit
    } else {
        default
    }
}

fn exec_page_bounds(n: usize, offset: usize, limit: usize) -> (r: (usize, usize))
    ensures
        r.0 == page_bounds(n as nat, offset as nat, limit as nat).0,
        r.1 == page_bounds(n as nat, offset as nat, limit as nat).1,
        r.0 <= r.1 <= n,
{
    let start = if offset < n { offset } else { n };
    let end = if offset < n && limit < n - offset { offset + limit } else { n };
    (start, end)
}

/// Whether `ci` describes client `c`.
pub open spec fn client_info_of(ci: ClientInfo, c: Client) -> bool {
    &&& ci.i == c.id
    &&& ci.a@ == c.address@
    &&& ci.p@ == c.platform@
    &&& ci.e@ == c.engine@
    &&& ci.u.is_some() == c.user.is_some()
    &&& (c.user matches Some(u) ==> (ci.u matches Some(s) && s@ == user_identifier(u.id, u.address@)))
    &&& ci.t == c.connected_at
}

fn client_info(c: &Client) -> (ci: ClientInfo)
    ensures
        client_info_of(ci, *c),
{
    ClientInfo {
        i: c.id,
        a: c.address.clone(),
        p: c.platform.clone(),
        e: c.engine.clone(),
        u: match &c.user {
            Some(u) => Some(u.to_identifier()),
            None => None,
        },
        t: c.connected_at,
    }
}

/// A `get_clients` query: the number of clients and one page of them, in an
/// order the registry does not fix (100 per page when no size is given).
pub fn get_clients(state: &AppState, limit: usize, offset: usize) -> (resp: GetClientsResp)
    requires
        state.wf(),
    ensures
        resp.total == state.clients@.dom().len() as u32,
        exists|order: Seq<u16>| #![trigger order.to_set()]
            order.no_duplicates() && order.to_set() == state.clients@.dom() && {
                let (start, end) = page_bounds(order.len(), offset as nat, limit_or(limit, DEFAULT_LIST_LIMIT) as nat);
                &&& resp.clients@.len() == end - start
                &&& forall|j: int| 0 <= j < end - start ==> client_info_of(#[trigger] resp.clients@[j], state.clients@[order[start + j]])
            },
{
    let total = #[verifier::truncate] (state.clients.count() as u32);
    let ids = state.clients.ids();
    proof {
        ids@.unique_seq_to_set();
    }
    let lim = if limit > 0 { limit } else { DEFAULT_LIST_LIMIT };
    let (start, end) = exec_page_bounds(ids.len(), offset, lim);
    let mut clients: Vec<ClientInfo> = Vec::new();
    let mut i = start;
    while i < end
        invariant
            start <= i <= end <= ids@.len(),
            ids@.to_set() == state.clients@.dom(),
            clients@.len() == i - start,
            forall|j: int| 0 <= j < i - start ==> client_info_of(#[trigger] clients@[j], state.clients@[ids@[start + j]]),
        decreases end - i,
    {
        let id = ids[i];
        proof { assert(ids@.to_set().contains(id)); }
        let c = state.clients.get(id).unwrap();
        clients.push(client_info(&c));
        i = i + 1;
    }
    assert(total == state.clients@.dom().len() as u32);
    GetClientsResp { total, clients }
}

/// Whether `info` describes instance `inst`.
pub open spec fn instance_info_of(info: InstanceInfo, inst: Instance) -> bool {
    &&& info.i == inst.internal_id as u32
    &&& info.n == inst.master_id
    &&& info.f == inst.flags
    &&& info.p == inst.players().len() as u32
    &&& info.w@ == world_identifier(inst.world.master_id, inst.world.version, inst.world.address@)
    &&& info.c == inst.capacity
}

/// A `get_instances` query: the number of instances and one page of them, in
/// an order the registry does not fix (100 per page when no size is given).
pub fn get_instances(state: &mut AppState, limit: usize, offset: usize) -> (resp: GetInstancesResp)
    requires
        old(state).wf(),
    ensures
        final(state).wf(),
        final(state).clients@ == old(state).clients@,
        final(state).instances@ == old(state).instances@,
        final(state).config == old(state).config,
        resp.total == old(state).instances@.dom().len() as u32,
        exists|order: Seq<u8>| #![trigger order.to_set()]
            order.no_duplicates() && order.to_set() == old(state).instances@.dom() && {
                let (start, end) = page_bounds(order.len(), offset as nat, limit_or(limit, DEFAULT_LIST_LIMIT) as nat);
                &&& resp.instances@.len() == end - start
                &&& forall|j: int| 0 <= j < end - start
                    ==> instance_info_of(#[trigger] resp.instances@[j], old(state).instances@[order[start + j]])
            },
{
    let total = #[verifier::truncate] (state.instances.count() as u32);
    let ids = state.instances.ids();
    proof {
        ids@.unique_seq_to_set();
    }
    let ghost insts = old(state).instances@;
    let lim = if limit > 0 { limit } else { DEFAULT_LIST_LIMIT };
    let (start, end) = exec_page_bounds(ids.len(), offset, lim);
    let mut infos: Vec<InstanceInfo> = Vec::new();
    let mut i = start;
    while i < end
        invariant
            insts == old(state).instances@,
            start <= i <= end <= ids@.len(),
            ids@.to_set() == insts.dom(),
            state.wf(),
            state.instances@ == insts,
            state.clients@ == old(state).clients@,
            state.config == old(state).config,
            infos@.len() == i - start,
            forall|j: int| 0 <= j < i - start ==> instance_info_of(#[trigger] infos@[j], insts[ids@[start + j]]),
        decreases end - i,
    {
        let iid = ids[i];
        proof { assert(ids@.to_set().contains(iid)); }
        let inst = state.instances.remove(iid).unwrap();
        let info = InstanceInfo {
            i: inst.internal_id as u32,
            n: inst.master_id,
            f: inst.flags,
            p: #[verifier::truncate] (inst.players.len() as u32),
            w: inst.world.to_identifier(),
            c: inst.capacity,
        };
        state.instances.add(inst);
        proof { lemma_put_back(insts, iid); }
        infos.push(info);
        i = i + 1;
    }
    GetInstancesResp { total, instances: infos }
}

/// The players a listing shows, in order: all, or those not hidden from lists.
pub open spec fn listed_players(ps: Seq<Player>, all: bool) -> Seq<Player>
    decreases ps.len(),
{
    if ps.len() == 0 {
        Seq::empty()
    } else {
        let r = listed_players(ps.drop_last(), all);
        if all || ps.last().flags & HIDE_IN_LIST == 0 {
            r.push(ps.last())
        } else {
            r
        }
    }
}

/// Whether `info` describes player `p`, whose client may be known.
pub open spec fn player_info_of(info: PlayerInfo, p: Player, clients: Map<u16, Client>) -> bool {
    let c = clients[p.client_id];
    let known = clients.contains_key(p.client_id);
    &&& info.i == p.id
    &&& info.c == p.client_id
    &&& info.d@ == match p.display {
        Some(d) => d@,
        None => if known && c.user is Some {
            c.user->0.display_name@
        } else {
            "Unknown"@
        },
    }
    &&& info.f == p.flags
    &&& info.u.is_some() == (known && c.user.is_some())
    &&& (known && c.user is Some ==> (info.u matches Some(s) && s@ == user_identifier(c.user->0.id, c.user->0.address@)))
    &&& info.j == p.created_at
}

fn player_info(p: &Player, clients: &crate::client::ClientManager) -> (info: PlayerInfo)
    ensures
        player_info_of(info, *p, clients@),
{
    let (d, u) = match clients.get(p.client_id) {
        Some(c) => {
            let d = match &p.display {
                Some(d) => d.clone(),
                None => match &c.user {
                    Some(u) => u.display_name.clone(),
                    None => String::from_str("Unknown"),
                },
            };
            let u = match &c.user {
                Some(u) => Some(u.to_identifier()),
                None => None,
            };
            (d, u)
        },
        None => {
            let d = match &p.display {
                Some(d) => d.clone(),
                None => String::from_str("Unknown"),
            };
            (d, None)
        },
    };
    PlayerInfo { i: p.id, c: p.client_id, d, f: p.flags, u, j: p.created_at }
}

/// A `get_players` query on the instance with internal id `req.i`: the number
/// of listed players and one page of them, in order (20 per page when no size
/// is given); nothing when there is no such instance.
pub fn get_players(state: &mut AppState, req: &GetPlayersReq) -> (resp: GetPlayersResp)
    requires
        old(state).wf(),
    ensures
        final(state).wf(),
        final(state).clients@ == old(state).clients@,
        final(state).instances@ == old(state).instances@,
        final(state).config == old(state).config,
        if req.i < 256 && old(state).instances@.contains_key(req.i as u8) {
            let listed = listed_players(old(state).instances@[req.i as u8].players(), req.a);
            let (start, end) = page_bounds(listed.len(), req.o as nat, limit_or(req.l, DEFAULT_PLAYER_LIMIT) as nat);
            &&& resp.t == listed.len() as u32
            &&& resp.i@.len() == end - start
            &&& forall|j: int| 0 <= j < end - start
                ==> player_info_of(#[trigger] resp.i@[j], listed[start + j], old(state).clients@)
        } else {
            resp.t == 0 && resp.i@.len() == 0
        },
{
    if req.i >= 256 {
        return GetPlayersResp { t: 0, i: Vec::new() };
    }
    let iid = req.i as u8;
    let inst = match state.instances.remove(iid) {
        Some(i) => i,
        None => return GetPlayersResp { t: 0, i: Vec::new() },
    };
    let ps = inst.get_players();
    let mut listed: Vec<usize> = Vec::new();
    let mut k: usize = 0;
    while k < ps.len()
        invariant
            ps@ == inst.players(),
            k <= ps@.len(),
            forall|j: int| 0 <= j < listed@.len() ==> #[trigger] listed@[j] < k,
            listed@.map_values(|j: usize| ps@[j as int]) == listed_players(ps@.take(k as int), req.a),
        decreases ps@.len() - k,
    {
        proof {
            assert(ps@.take(k + 1).drop_last() =~= ps@.take(k as int));
        }
        if req.a || ps[k].flags & HIDE_IN_LIST == 0 {
            let ghost before = listed@;
            listed.push(k);
            proof {
                assert(listed@.map_values(|j: usize| ps@[j as int]) =~= before.map_values(|j: usize| ps@[j as int]).push(ps@[k as int]));
            }
        }
        k = k + 1;
    }
    assert(ps@.take(ps@.len() as int) =~= ps@);
    let ghost lv = listed@.map_values(|j: usize| ps@[j as int]);
    let lim = if req.l > 0 { req.l } else { DEFAULT_PLAYER_LIMIT };
    let (start, end) = exec_page_bounds(listed.len(), req.o, lim);
    let mut infos: Vec<PlayerInfo> = Vec::new();
    let mut i = start;
    while i < end
        invariant
            ps@ == inst.players(),
            forall|j: int| 0 <= j < listed@.len() ==> #[trigger] listed@[j] < ps@.len(),
            lv == listed@.map_values(|j: usize| ps@[j as int]),
            start <= i <= end <= listed@.len(),
            infos@.len() == i - start,
            forall|j: int| 0 <= j < i - start ==> player_info_of(#[trigger] infos@[j], lv[start + j], state.clients@),
        decreases end - i,
    {
        let j = listed[i];
        infos.push(player_info(&ps[j], &state.clients));
        i = i + 1;
    }
    let t = #[verifier::truncate] (listed.len() as u32);
    state.instances.add(inst);
    proof { lemma_put_back(old(state).instances@, iid); }
    GetPlayersResp { t, i: infos }
}

/// Whether `d` describes instance `inst` for a sync with the node (the
/// password is never sent back).
pub open spec fn sync_data_of(d: SyncInstanceData, inst: Instance) -> bool {
    &&& d.master_id == inst.master_id
    &&& d.internal_id == inst.internal_id as u32
    &&& d.password is None
    &&& d.capacity == inst.capacity
    &&& d.player_count == inst.players().len()
    &&& d.world@ == world_identifier(inst.world.master_id, inst.world.version, inst.world.address@)
    &&& d.flags == inst.flags
}

/// The instances to sync with the node, in an order the registry does not fix.
pub fn sync_instance_data(state: &mut AppState) -> (data: Vec<SyncInstanceData>)
    requires
        old(state).wf(),
    ensures
        final(state).wf(),
        final(state).clients@ == old(state).clients@,
        final(state).instances@ == old(state).instances@,
        final(state).config == old(state).config,
        exists|order: Seq<u8>| #![trigger order.to_set()]
            order.no_duplicates() && order.to_set() == old(state).instances@.dom()
            && data@.len() == order.len()
            && forall|j: int| 0 <= j < order.len() ==> sync_data_of(#[trigger] data@[j], old(state).instances@[order[j]]),
{
    let ids = state.instances.ids();
    let ghost insts = old(state).instances@;
    let mut data: Vec<SyncInstanceData> = Vec::new();
    let mut i: usize = 0;
    while i < ids.len()
        invariant
            insts == old(state).instances@,
            i <= ids@.len(),
            ids@.to_set() == insts.dom(),
            state.wf(),
            state.instances@ == insts,
            state.clients@ == old(state).clients@,
            state.config == old(state).config,
            data@.len() == i,
            forall|j: int| 0 <= j < i ==> sync_data_of(#[trigger] data@[j], insts[ids@[j]]),
        decreases ids@.len() - i,
    {
        let iid = ids[i];
        proof { assert(ids@.to_set().contains(iid)); }
        let inst = state.instances.remove(iid).unwrap();
        let d = SyncInstanceData {
            master_id: inst.master_id,
            internal_id: inst.internal_id as u32,
            password: None,
            capacity: inst.capacity,
            player_count: inst.players.len(),
            world: inst.world.to_identifier(),
            flags: inst.flags,
        };
        state.instances.add(inst);
        proof { lemma_put_back(insts, iid); }
        data.push(d);
        i = i + 1;
    }
    data
}

} // verus!
