//! The relay state handlers work on, the client guards, and the broadcast
//! recipient lists.
use vstd::prelude::*;

use super::packet::{out, outs_view, Delivery, OutView, Outgoing, PacketType};
use crate::client::client::Client;
use crate::client::ClientManager;
use crate::config::Config;
use crate::instance::instance::{spec_can_see, Instance};
use crate::instance::InstanceManager;

verus! {

/// The state shared by all connection tasks.
pub struct AppState {
    pub clients: ClientManager,
    pub instances: InstanceManager,
    pub config: Config,
    /// Relay start time (Unix ms).
    pub start_time_ms: i64,
}

impl AppState {
    pub open spec fn wf(&self) -> bool {
        self.clients.wf() && self.instances.wf()
    }

    pub fn new(config: Config, start_time_ms: i64) -> (s: Self)
        ensures
            s.wf(),
            s.clients@ == Map::<u16, Client>::empty(),
            s.instances@ == Map::<u8, Instance>::empty(),
            s.config == config,
            s.start_time_ms == start_time_ms,
    {
        AppState { clients: ClientManager::new(), instances: InstanceManager::new(), config, start_time_ms }
    }

    /// The lowest free client id.
    pub fn next_client_id(&self) -> (id: u16)
        ensures
            id < u16::MAX ==> !self.clients@.contains_key(id),
            forall|k: u16| k < id ==> self.clients@.contains_key(k),
    {
        self.clients.next_id()
    }
}

/// The client `client_id` when it exists and has completed the handshake.
pub fn require_handshake(state: &AppState, client_id: u16) -> (c: Option<Client>)
    ensures
        c == (if state.clients@.contains_key(client_id) && state.clients@[client_id].spec_is_handshaked() {
            Some(state.clients@[client_id])
        } else {
            None::<Client>
        }),
{
    match state.clients.get(client_id) {
        Some(c) => if c.is_handshaked() {
            Some(c)
        } else {
            None
        },
        None => None,
    }
}

/// The client `client_id` when it exists and is authenticated.
pub fn require_auth(state: &AppState, client_id: u16) -> (c: Option<Client>)
    ensures
        c == (if state.clients@.contains_key(client_id) && state.clients@[client_id].spec_is_authenticated() {
            Some(state.clients@[client_id])
        } else {
            None::<Client>
        }),
{
    match state.clients.get(client_id) {
        Some(c) => if c.is_authenticated() {
            Some(c)
        } else {
            None
        },
        None => None,
    }
}

/// Whether client `client_id` is authenticated and has a player in instance `instance_id`.
pub open spec fn spec_is_instance_player(state: &AppState, client_id: u16, instance_id: u8) -> bool {
    &&& state.clients@.contains_key(client_id)
    &&& state.clients@[client_id].spec_is_authenticated()
    &&& state.instances@.contains_key(instance_id)
    &&& state.instances@[instance_id].has_client(client_id)
}

/// Putting back the instance just taken out leaves the registry as it was.
pub proof fn lemma_put_back(m: Map<u8, Instance>, k: u8)
    requires
        m.contains_key(k),
    ensures
        m.remove(k).insert(k, m[k]) == m,
{
    assert(m.remove(k).insert(k, m[k]) =~= m);
}

/// The client when it is authenticated and has a player in the instance.
pub fn require_instance_player(state: &mut AppState, client_id: u16, instance_id: u8) -> (c: Option<Client>)
    requires
        old(state).wf(),
    ensures
        final(state).wf(),
        final(state).clients@ == old(state).clients@,
        final(state).instances@ == old(state).instances@,
        final(state).config == old(state).config,
        c is Some == spec_is_instance_player(&*old(state), client_id, instance_id),
        c matches Some(x) ==> x == old(state).clients@[client_id],
{
    let c = match require_auth(state, client_id) {
        Some(c) => c,
        None => return None,
    };
    match state.instances.remove(instance_id) {
        None => None,
        Some(inst) => {
            let present = match inst.find_client(client_id) {
                Some(_) => true,
                None => false,
            };
            state.instances.add(inst);
            proof { lemma_put_back(old(state).instances@, instance_id); }
            if present {
                Some(c)
            } else {
                None
            }
        },
    }
}

/// The packets for those of `cids` that are connected clients, in order.
pub open spec fn pushes_to(
    cids: Seq<u16>,
    clients: Map<u16, Client>,
    uid: u16,
    packet_type: PacketType,
    payload: Seq<u8>,
    delivery: Delivery,
) -> Seq<OutView>
    decreases cids.len(),
{
    if cids.len() == 0 {
        Seq::empty()
    } else {
        let r = pushes_to(cids.drop_last(), clients, uid, packet_type, payload, delivery);
        if clients.contains_key(cids.last()) {
            r.push(out(cids.last(), uid, packet_type, payload, delivery))
        } else {
            r
        }
    }
}

/// Appends, for each of `cids` that is a connected client, a copy of the packet.
pub fn push_to_clients(
    clients: &ClientManager,
    cids: &Vec<u16>,
    uid: u16,
    packet_type: PacketType,
    payload: &Vec<u8>,
    delivery: Delivery,
    outs: &mut Vec<Outgoing>,
)
    ensures
        outs_view(final(outs)@) == outs_view(old(outs)@) + pushes_to(cids@, clients@, uid, packet_type, payload@, delivery),
{
    let ghost start = outs_view(outs@);
    let mut i: usize = 0;
    while i < cids.len()
        invariant
            i <= cids@.len(),
            outs_view(outs@) == start + pushes_to(cids@.take(i as int), clients@, uid, packet_type, payload@, delivery),
        decreases cids@.len() - i,
    {
        let cid = cids[i];
        proof {
            assert(cids@.take(i + 1).drop_last() =~= cids@.take(i as int));
        }
        if clients.contains(cid) {
            let ghost before = outs@;
            outs.push(Outgoing::new(cid, uid, packet_type, payload.clone(), delivery));
            proof {
                assert(outs_view(outs@) =~= outs_view(before).push(out(cid, uid, packet_type, payload@, delivery)));
            }
        }
        i = i + 1;
    }
    assert(cids@.take(cids@.len() as int) =~= cids@);
}

/// The clients of the players of `ps` for which `sel` holds, in order.
pub open spec fn select_clients(ps: Seq<crate::player::Player>, sel: spec_fn(crate::player::Player) -> bool) -> Seq<u16>
    decreases ps.len(),
{
    if ps.len() == 0 {
        Seq::empty()
    } else {
        let r = select_clients(ps.drop_last(), sel);
        if sel(ps.last()) {
            r.push(ps.last().client_id)
        } else {
            r
        }
    }
}

/// The clients of the players whose client is not `exclude`.
pub open spec fn clients_except(ps: Seq<crate::player::Player>, exclude: Option<u16>) -> Seq<u16> {
    select_clients(ps, |p: crate::player::Player| exclude != Some(p.client_id))
}

/// The clients of the players (whose client is not `exclude`) that can see `target`.
pub open spec fn clients_seeing(
    ps: Seq<crate::player::Player>,
    gs: Seq<crate::instance::view_group::GroupView>,
    target: u16,
    exclude: Option<u16>,
) -> Seq<u16> {
    select_clients(ps, |p: crate::player::Player| exclude != Some(p.client_id) && spec_can_see(gs, p.id, target))
}

/// The clients of the players of an instance whose client is not `exclude`.
pub fn collect_clients_except(inst: &Instance, exclude: Option<u16>) -> (cids: Vec<u16>)
    ensures
        cids@ == clients_except(inst.players(), exclude),
{
    let ps = inst.get_players();
    let mut cids: Vec<u16> = Vec::new();
    let mut i: usize = 0;
    while i < ps.len()
        invariant
            ps@ == inst.players(),
            i <= ps@.len(),
            cids@ == clients_except(ps@.take(i as int), exclude),
        decreases ps@.len() - i,
    {
        proof {
            assert(ps@.take(i + 1).drop_last() =~= ps@.take(i as int));
        }
        let keep = match exclude {
            Some(x) => x != ps[i].client_id,
            None => true,
        };
        if keep {
            cids.push(ps[i].client_id);
        }
        i = i + 1;
    }
    assert(ps@.take(ps@.len() as int) =~= ps@);
    cids
}

/// The clients of the players (whose client is not `exclude`) that can see `target`.
pub fn collect_clients_seeing(inst: &Instance, target: u16, exclude: Option<u16>) -> (cids: Vec<u16>)
    ensures
        cids@ == clients_seeing(inst.players(), inst.groups(), target, exclude),
{
    let ps = inst.get_players();
    let mut cids: Vec<u16> = Vec::new();
    let mut i: usize = 0;
    while i < ps.len()
        invariant
            ps@ == inst.players(),
            i <= ps@.len(),
            cids@ == clients_seeing(ps@.take(i as int), inst.groups(), target, exclude),
        decreases ps@.len() - i,
    {
        proof {
            assert(ps@.take(i + 1).drop_last() =~= ps@.take(i as int));
        }
        let not_excluded = match exclude {
            Some(x) => x != ps[i].client_id,
            None => true,
        };
        if not_excluded && inst.can_user_see_user(ps[i].id, target) {
            cids.push(ps[i].client_id);
        }
        i = i + 1;
    }
    assert(ps@.take(ps@.len() as int) =~= ps@);
    cids
}

/// Sends `payload` to every client in instance `instance_id`, except `exclude`.
pub fn broadcast_instance(
    state: &mut AppState,
    instance_id: u8,
    packet_type: PacketType,
    payload: &Vec<u8>,
    exclude: Option<u16>,
) -> (outs: Vec<Outgoing>)
    requires
        old(state).wf(),
    ensures
        final(state).wf(),
        final(state).clients@ == old(state).clients@,
        final(state).instances@ == old(state).instances@,
        final(state).config == old(state).config,
        outs_view(outs@) == (if old(state).instances@.contains_key(instance_id) {
            pushes_to(
                clients_except(old(state).instances@[instance_id].players(), exclude),
                old(state).clients@,
                0,
                packet_type,
                payload@,
                Delivery::Push,
            )
        } else {
            Seq::<OutView>::empty()
        }),
{
    let mut outs: Vec<Outgoing> = Vec::new();
    match state.instances.remove(instance_id) {
        None => {
            assert(outs_view(outs@) =~= Seq::<OutView>::empty());
            outs
        },
        Some(inst) => {
            let cids = collect_clients_except(&inst, exclude);
            state.instances.add(inst);
            proof { lemma_put_back(old(state).instances@, instance_id); }
            assert(outs_view(outs@) =~= Seq::<OutView>::empty());
            push_to_clients(&state.clients, &cids, 0, packet_type, payload, Delivery::Push, &mut outs);
            assert(outs_view(outs@) =~= Seq::<OutView>::empty() + pushes_to(cids@, old(state).clients@, 0, packet_type, payload@, Delivery::Push));
            outs
        },
    }
}

/// Sends `payload` only to the clients that can see `target_player_id`, except `exclude`.
pub fn broadcast_visible(
    state: &mut AppState,
    instance_id: u8,
    target_player_id: u16,
    packet_type: PacketType,
    payload: &Vec<u8>,
    exclude: Option<u16>,
) -> (outs: Vec<Outgoing>)
    requires
        old(state).wf(),
    ensures
        final(state).wf(),
        final(state).clients@ == old(state).clients@,
        final(state).instances@ == old(state).instances@,
        final(state).config == old(state).config,
        outs_view(outs@) == (if old(state).instances@.contains_key(instance_id) {
            let inst = old(state).instances@[instance_id];
            pushes_to(
                clients_seeing(inst.players(), inst.groups(), target_player_id, exclude),
                old(state).clients@,
                0,
                packet_type,
                payload@,
                Delivery::Push,
            )
        } else {
            Seq::<OutView>::empty()
        }),
{
    let mut outs: Vec<Outgoing> = Vec::new();
    match state.instances.remove(instance_id) {
        None => {
            assert(outs_view(outs@) =~= Seq::<OutView>::empty());
            outs
        },
        Some(inst) => {
            let cids = collect_clients_seeing(&inst, target_player_id, exclude);
            state.instances.add(inst);
            proof { lemma_put_back(old(state).instances@, instance_id); }
            assert(outs_view(outs@) =~= Seq::<OutView>::empty());
            push_to_clients(&state.clients, &cids, 0, packet_type, payload, Delivery::Push, &mut outs);
            assert(outs_view(outs@) =~= Seq::<OutView>::empty() + pushes_to(cids@, old(state).clients@, 0, packet_type, payload@, Delivery::Push));
            outs
        },
    }
}

/// Each packet of `pushes_to` goes to one of `cids` that is a connected
/// client, and carries the given kind, request id, payload and delivery.
pub proof fn lemma_pushes_to_members(
    cids: Seq<u16>,
    clients: Map<u16, Client>,
    uid: u16,
    packet_type: PacketType,
    payload: Seq<u8>,
    delivery: Delivery,
)
    ensures
        forall|i: int| 0 <= i < pushes_to(cids, clients, uid, packet_type, payload, delivery).len() ==> {
            let o = #[trigger] pushes_to(cids, clients, uid, packet_type, payload, delivery)[i];
            &&& cids.contains(o.client_id)
            &&& clients.contains_key(o.client_id)
            &&& o.uid == uid
            &&& o.packet_type == packet_type
            &&& o.payload == payload
            &&& o.delivery == delivery
        },
    decreases cids.len(),
{
    if cids.len() > 0 {
        let init = cids.drop_last();
        lemma_pushes_to_members(init, clients, uid, packet_type, payload, delivery);
        let r = pushes_to(init, clients, uid, packet_type, payload, delivery);
        assert forall|i: int| 0 <= i < pushes_to(cids, clients, uid, packet_type, payload, delivery).len() implies {
            let o = #[trigger] pushes_to(cids, clients, uid, packet_type, payload, delivery)[i];
            &&& cids.contains(o.client_id)
            &&& clients.contains_key(o.client_id)
            &&& o.uid == uid
            &&& o.packet_type == packet_type
            &&& o.payload == payload
            &&& o.delivery == delivery
        } by {
            if i < r.len() {
                let o = r[i];
                let j = choose|j: int| 0 <= j < init.len() && init[j] == o.client_id;
                assert(cids[j] == init[j]);
            } else {
                assert(cids[cids.len() - 1] == cids.last());
            }
        }
    }
}

/// Whether `c` is the client of a player of `ps` that `sel` picks.
pub open spec fn picked_client(ps: Seq<crate::player::Player>, sel: spec_fn(crate::player::Player) -> bool, c: u16) -> bool {
    exists|j: int| 0 <= j < ps.len() && #[trigger] sel(ps[j]) && ps[j].client_id == c
}

/// Each client `select_clients` gives is the client of a player of `ps` that `sel` picks.
pub proof fn lemma_select_clients_members(ps: Seq<crate::player::Player>, sel: spec_fn(crate::player::Player) -> bool)
    ensures
        forall|i: int| 0 <= i < select_clients(ps, sel).len() ==> picked_client(ps, sel, #[trigger] select_clients(ps, sel)[i]),
    decreases ps.len(),
{
    if ps.len() > 0 {
        let init = ps.drop_last();
        lemma_select_clients_members(init, sel);
        let r = select_clients(init, sel);
        let full = select_clients(ps, sel);
        assert forall|i: int| 0 <= i < full.len() implies picked_client(ps, sel, #[trigger] full[i]) by {
            if sel(ps.last()) {
                assert(full == r.push(ps.last().client_id));
            } else {
                assert(full == r);
            }
            if i < r.len() {
                assert(full[i] == r[i]);
                assert(picked_client(init, sel, r[i]));
                let j = choose|j: int| 0 <= j < init.len() && #[trigger] sel(init[j]) && init[j].client_id == r[i];
                assert(ps[j] == init[j]);
            } else {
                let j = ps.len() - 1;
                assert(ps[j] == ps.last());
                assert(sel(ps[j]) && ps[j].client_id == full[i]);
            }
        }
    }
}

/// Whether `c` is the client of a player of `ps`.
pub open spec fn client_of_some(ps: Seq<crate::player::Player>, c: u16) -> bool {
    exists|j: int| 0 <= j < ps.len() && #[trigger] ps[j].client_id == c
}

/// The clients `clients_except` gives are clients of players of `ps`, never `exclude`.
pub proof fn lemma_clients_except_members(ps: Seq<crate::player::Player>, exclude: Option<u16>)
    ensures
        forall|i: int| 0 <= i < clients_except(ps, exclude).len() ==> {
            let c = #[trigger] clients_except(ps, exclude)[i];
            exclude != Some(c) && client_of_some(ps, c)
        },
{
    let sel = |p: crate::player::Player| exclude != Some(p.client_id);
    lemma_select_clients_members(ps, sel);
    assert forall|i: int| 0 <= i < clients_except(ps, exclude).len() implies {
        let c = #[trigger] clients_except(ps, exclude)[i];
        exclude != Some(c) && client_of_some(ps, c)
    } by {
        let c = clients_except(ps, exclude)[i];
        assert(clients_except(ps, exclude) == select_clients(ps, sel));
        assert(picked_client(ps, sel, c));
        let j = choose|j: int| 0 <= j < ps.len() && #[trigger] sel(ps[j]) && ps[j].client_id == c;
        assert(ps[j].client_id == c);
    }
}

/// The clients `clients_seeing` gives are clients of players of `ps`, never `exclude`.
pub proof fn lemma_clients_seeing_members(
    ps: Seq<crate::player::Player>,
    gs: Seq<crate::instance::view_group::GroupView>,
    target: u16,
    exclude: Option<u16>,
)
    ensures
        forall|i: int| 0 <= i < clients_seeing(ps, gs, target, exclude).len() ==> {
            let c = #[trigger] clients_seeing(ps, gs, target, exclude)[i];
            exclude != Some(c) && client_of_some(ps, c)
        },
{
    let sel = |p: crate::player::Player| exclude != Some(p.client_id) && spec_can_see(gs, p.id, target);
    lemma_select_clients_members(ps, sel);
    assert forall|i: int| 0 <= i < clients_seeing(ps, gs, target, exclude).len() implies {
        let c = #[trigger] clients_seeing(ps, gs, target, exclude)[i];
        exclude != Some(c) && client_of_some(ps, c)
    } by {
        let c = clients_seeing(ps, gs, target, exclude)[i];
        assert(clients_seeing(ps, gs, target, exclude) == select_clients(ps, sel));
        assert(picked_client(ps, sel, c));
        let j = choose|j: int| 0 <= j < ps.len() && #[trigger] sel(ps[j]) && ps[j].client_id == c;
        assert(ps[j].client_id == c);
    }
}

} // verus!
