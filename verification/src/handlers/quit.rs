//! Quit: a player leaves an instance and the departure is announced.
//!
//! Request: `[iid: u8][QuitType: u8](?[reason: string])`.
//! Response (Quit): `[iid: u8][QuitType: u8](?[reason: string])`.
//! Leave to each other ready player: `[iid: u8][QuitType: u8][player_id: u16]`,
//! plus `[by_id: u16](?[reason: string])` for privileged receivers of a
//! moderation action; each other ready player's Leave also goes back to the
//! departing client.
use vstd::prelude::*;

use super::context::{lemma_pushes_to_members, lemma_put_back, push_to_clients, pushes_to, select_clients, AppState};
use super::packet::{out, outs_view, Delivery, OutView, Outgoing, PacketType};
use crate::client::client::Client;
use crate::instance::instance::{groups_after_cleanup, seq_client_index, seq_has_client, seq_player_index, Instance};
use crate::instance::view_group::opt_chars;
use crate::player::{Player, PlayerStatus};
use crate::wire::{le16, lemma_u16_roundtrip, string_field, take_string, take_u16, take_u8, PacketReader, PacketWriter};

verus! {

/// Why a player leaves an instance.
#[derive(Debug, Clone, Copy, PartialEq, Eq, Structural)]
pub enum QuitType {
    Normal,
    Timeout,
    ModerationKick,
    VoteKick,
    ConfigurationError,
    UnknownError,
}

impl QuitType {
    pub open spec fn spec_from_u8(v: u8) -> QuitType {
        if v == 0 {
            QuitType::Normal
        } else if v == 1 {
            QuitType::Timeout
        } else if v == 2 {
            QuitType::ModerationKick
        } else if v == 3 {
            QuitType::VoteKick
        } else if v == 4 {
            QuitType::ConfigurationError
        } else {
            QuitType::UnknownError
        }
    }

    pub open spec fn spec_code(self) -> u8 {
        match self {
            QuitType::Normal => 0,
            QuitType::Timeout => 1,
            QuitType::ModerationKick => 2,
            QuitType::VoteKick => 3,
            QuitType::ConfigurationError => 4,
            QuitType::UnknownError => 5,
        }
    }

    /// The quit type with code `v`; codes past 5 read as `UnknownError`.
    pub fn from_u8(v: u8) -> (q: QuitType)
        ensures
            q == QuitType::spec_from_u8(v),
    {
        if v == 0 {
            QuitType::Normal
        } else if v == 1 {
            QuitType::Timeout
        } else if v == 2 {
            QuitType::ModerationKick
        } else if v == 3 {
            QuitType::VoteKick
        } else if v == 4 {
            QuitType::ConfigurationError
        } else {
            QuitType::UnknownError
        }
    }

    /// The wire code.
    pub fn code(self) -> (c: u8)
        ensures
            c == self.spec_code(),
    {
        match self {
            QuitType::Normal => 0,
            QuitType::Timeout => 1,
            QuitType::ModerationKick => 2,
            QuitType::VoteKick => 3,
            QuitType::ConfigurationError => 4,
            QuitType::UnknownError => 5,
        }
    }

    pub open spec fn spec_is_moderation_action(self) -> bool {
        self == QuitType::ModerationKick || self == QuitType::VoteKick
    }

    /// Kicks by a moderator or by vote.
    pub fn is_moderation_action(self) -> (b: bool)
        ensures
            b == self.spec_is_moderation_action(),
    {
        match self {
            QuitType::ModerationKick | QuitType::VoteKick => true,
            _ => false,
        }
    }
}

/// Every quit type reads back from its code.
pub proof fn lemma_quit_code_roundtrip(q: QuitType)
    ensures
        QuitType::spec_from_u8(q.spec_code()) == q,
{
}

/// `(?[reason: string])`.
pub open spec fn opt_string_field(reason: Option<Seq<char>>) -> Seq<u8> {
    match reason {
        Some(r) => string_field(r),
        None => Seq::empty(),
    }
}

/// `[iid][QuitType](?[reason])`.
pub open spec fn quit_payload(iid: u8, q: QuitType, reason: Option<Seq<char>>) -> Seq<u8> {
    seq![iid, q.spec_code()] + opt_string_field(reason)
}

/// `[iid][QuitType][player_id]` and, for a moderation notice, `[by_id](?[reason])`.
pub open spec fn leave_payload(iid: u8, player_id: u16, q: QuitType, by_id: Option<u16>, reason: Option<Seq<char>>) -> Seq<u8> {
    seq![iid, q.spec_code()] + le16(player_id) + match by_id {
        Some(by) => le16(by) + opt_string_field(reason),
        None => Seq::empty(),
    }
}

/// The Leave another player receives: privileged receivers see `Normal`
/// unless it is a moderation action, which they see with who was removed and why.
pub open spec fn leave_for_other(iid: u8, player_id: u16, q: QuitType, reason: Option<Seq<char>>, privileged: bool) -> Seq<u8> {
    let shown = if privileged || q == QuitType::Normal {
        QuitType::Normal
    } else {
        q
    };
    let by = if privileged && q.spec_is_moderation_action() {
        Some(player_id)
    } else {
        None
    };
    leave_payload(iid, player_id, shown, by, if by is Some { reason } else { None })
}

/// The packet `payload` pushed to `cid` when it is a connected client.
pub open spec fn push_if_connected(clients: Map<u16, Client>, cid: u16, packet_type: PacketType, payload: Seq<u8>) -> Seq<OutView> {
    if clients.contains_key(cid) {
        seq![out(cid, 0, packet_type, payload, Delivery::Push)]
    } else {
        Seq::empty()
    }
}

/// The Leave fan-out of a ready player `player_id` (client `client_id`)
/// leaving: for each other ready player in order, its Leave notice, then
/// that player's own Leave back to the departing client.
pub open spec fn quit_fanout(
    ps: Seq<Player>,
    clients: Map<u16, Client>,
    iid: u8,
    player_id: u16,
    client_id: u16,
    q: QuitType,
    reason: Option<Seq<char>>,
) -> Seq<OutView>
    decreases ps.len(),
{
    if ps.len() == 0 {
        Seq::empty()
    } else {
        let r = quit_fanout(ps.drop_last(), clients, iid, player_id, client_id, q, reason);
        let o = ps.last();
        if o.id != player_id && o.status == PlayerStatus::Ready {
            r + push_if_connected(clients, o.client_id, PacketType::Leave, leave_for_other(iid, player_id, q, reason, o.spec_has_privilege()))
                + push_if_connected(clients, client_id, PacketType::Leave, leave_payload(iid, o.id, QuitType::Normal, None, None))
        } else {
            r
        }
    }
}

/// The optional reason of a Quit request: a string when more than two bytes remain.
pub open spec fn quit_reason(rest: Seq<u8>) -> Option<Seq<char>> {
    if rest.len() > 2 {
        take_string(rest).0
    } else {
        None
    }
}

fn opt_str(s: &Option<String>) -> (r: Option<&str>)
    ensures
        match r {
            Some(t) => s matches Some(u) && t@ == u@,
            None => s is None,
        },
{
    match s {
        Some(t) => Some(t.as_str()),
        None => None,
    }
}

/// Builds a Leave payload.
pub fn build_leave(iid: u8, player_id: u16, quit_type: QuitType, by_id: Option<u16>, reason: Option<&str>) -> (p: Vec<u8>)
    ensures
        p@ == leave_payload(
            iid,
            player_id,
            quit_type,
            by_id,
            match reason {
                Some(r) => Some(r@),
                None => None,
            },
        ),
{
    let mut w = PacketWriter::new();
    w.write_u8(iid);
    w.write_u8(quit_type.code());
    w.write_u16(player_id);
    if let Some(by) = by_id {
        w.write_u16(by);
        if let Some(r) = reason {
            w.write_string(r);
        }
    }
    let ghost v = w@;
    proof {
        let rs = match reason {
            Some(r) => Some(r@),
            None => None::<Seq<char>>,
        };
        match by_id {
            Some(by) => {
                match reason {
                    Some(r) => assert(v =~= seq![iid, quit_type.spec_code()] + le16(player_id) + (le16(by) + opt_string_field(rs))),
                    None => assert(v =~= seq![iid, quit_type.spec_code()] + le16(player_id) + (le16(by) + opt_string_field(rs))),
                }
            },
            None => assert(v =~= seq![iid, quit_type.spec_code()] + le16(player_id) + Seq::<u8>::empty()),
        }
    }
    w.finish()
}

/// Builds a Quit response payload.
pub fn make_quit_response(iid: u8, quit_type: QuitType, reason: Option<&str>) -> (p: Vec<u8>)
    ensures
        p@ == quit_payload(
            iid,
            quit_type,
            match reason {
                Some(r) => Some(r@),
                None => None,
            },
        ),
{
    let mut w = PacketWriter::new();
    w.write_u8(iid);
    w.write_u8(quit_type.code());
    if let Some(r) = reason {
        w.write_string(r);
    }
    let ghost v = w@;
    proof {
        match reason {
            Some(r) => assert(v =~= seq![iid, quit_type.spec_code()] + string_field(r@)),
            None => assert(v =~= seq![iid, quit_type.spec_code()] + Seq::<u8>::empty()),
        }
    }
    w.finish()
}

/// The Leave fan-out for `player_id` leaving `inst`.
fn fanout(
    clients: &crate::client::ClientManager,
    inst: &Instance,
    iid: u8,
    player_id: u16,
    client_id: u16,
    quit_type: QuitType,
    reason: &Option<String>,
    outs: &mut Vec<Outgoing>,
)
    ensures
        outs_view(final(outs)@) == outs_view(old(outs)@) + quit_fanout(
            inst.players(),
            clients@,
            iid,
            player_id,
            client_id,
            quit_type,
            opt_chars(*reason),
        ),
{
    let ghost rs = opt_chars(*reason);
    let ghost start = outs_view(outs@);
    let ps = inst.get_players();
    let mut i: usize = 0;
    while i < ps.len()
        invariant
            ps@ == inst.players(),
            i <= ps@.len(),
            rs == opt_chars(*reason),
            outs_view(outs@) == start + quit_fanout(ps@.take(i as int), clients@, iid, player_id, client_id, quit_type, rs),
        decreases ps@.len() - i,
    {
        proof {
            assert(ps@.take(i + 1).drop_last() =~= ps@.take(i as int));
        }
        let o = &ps[i];
        if o.id != player_id && o.status == PlayerStatus::Ready {
            let privileged = o.has_privilege();
            let shown = if privileged || quit_type == QuitType::Normal {
                QuitType::Normal
            } else {
                quit_type
            };
            let by = if privileged && quit_type.is_moderation_action() {
                Some(player_id)
            } else {
                None
            };
            let sent_reason = if by.is_some() {
                opt_str(reason)
            } else {
                None
            };
            let to_other = build_leave(iid, player_id, shown, by, sent_reason);
            assert(to_other@ == leave_for_other(iid, player_id, quit_type, rs, o.spec_has_privilege()));
            let ghost before = outs_view(outs@);
            if clients.contains(o.client_id) {
                outs.push(Outgoing::new(o.client_id, 0, PacketType::Leave, to_other, Delivery::Push));
            }
            let ghost mid = outs_view(outs@);
            assert(mid =~= before + push_if_connected(clients@, o.client_id, PacketType::Leave, leave_for_other(iid, player_id, quit_type, rs, o.spec_has_privilege())));
            let to_self = build_leave(iid, o.id, QuitType::Normal, None, None);
            if clients.contains(client_id) {
                outs.push(Outgoing::new(client_id, 0, PacketType::Leave, to_self, Delivery::Push));
            }
            assert(outs_view(outs@) =~= mid + push_if_connected(clients@, client_id, PacketType::Leave, leave_payload(iid, o.id, QuitType::Normal, None, None)));
        }
        i = i + 1;
    }
    assert(ps@.take(ps@.len() as int) =~= ps@);
}

/// What a Quit request answers and sends, when the sender has a player in the
/// instance: the Leave fan-out (when that player was ready), then the reply.
pub open spec fn spec_quit_outputs(state: AppState, client_id: u16, uid: u16, payload: Seq<u8>) -> Seq<OutView> {
    let (iid, r1) = take_u8(payload);
    let fail = |reason: Seq<char>| seq![out(client_id, uid, PacketType::Quit, quit_payload(iid, QuitType::UnknownError, Some(reason)), Delivery::Reply)];
    if !state.instances@.contains_key(iid) {
        fail("Instance not found."@)
    } else if !state.instances@[iid].has_client(client_id) {
        fail("You are not in the instance."@)
    } else {
        let inst = state.instances@[iid];
        let p = inst.client_player(client_id);
        let (code, r2) = take_u8(r1);
        let q = QuitType::spec_from_u8(code);
        let reason = quit_reason(r2);
        let fan = if p.status == PlayerStatus::Ready {
            quit_fanout(inst.players(), state.clients@, iid, p.id, client_id, q, reason)
        } else {
            Seq::empty()
        };
        fan.push(out(client_id, uid, PacketType::Quit, quit_payload(iid, q, reason), Delivery::Reply))
    }
}

/// `inst` once the player `player_id` has left it.
pub open spec fn spec_after_leave(before: Instance, after: Instance, player_id: u16) -> bool {
    &&& after.wf()
    &&& after.players() == before.players().remove(seq_player_index(before.players(), player_id))
    &&& after.groups() == groups_after_cleanup(before.groups(), player_id)
    &&& crate::instance::instance::same_settings(after, before)
}

/// Handles a Quit request from client `client_id`: the packets to send, the
/// reply last.
pub fn handle(state: &mut AppState, client_id: u16, uid: u16, payload: Vec<u8>) -> (outs: Vec<Outgoing>)
    requires
        old(state).wf(),
    ensures
        final(state).wf(),
        final(state).clients@ == old(state).clients@,
        final(state).config == old(state).config,
        outs_view(outs@) == spec_quit_outputs(*old(state), client_id, uid, payload@),
        ({
            let iid = take_u8(payload@).0;
            if old(state).instances@.contains_key(iid) && old(state).instances@[iid].has_client(client_id) {
                let inst = old(state).instances@[iid];
                &&& final(state).instances@.dom() == old(state).instances@.dom()
                &&& forall|k: u8| k != iid && #[trigger] old(state).instances@.contains_key(k)
                    ==> final(state).instances@[k] == old(state).instances@[k]
                &&& spec_after_leave(inst, final(state).instances@[iid], inst.client_player(client_id).id)
            } else {
                final(state).instances@ == old(state).instances@
            }
        }),
{
    let mut outs: Vec<Outgoing> = Vec::new();
    let mut r = PacketReader::new(payload);
    let iid = r.read_u8();
    let mut inst = match state.instances.remove(iid) {
        Some(i) => i,
        None => {
            let p = make_quit_response(iid, QuitType::UnknownError, Some("Instance not found."));
            outs.push(Outgoing::new(client_id, uid, PacketType::Quit, p, Delivery::Reply));
            assert(outs_view(outs@) =~= spec_quit_outputs(*old(state), client_id, uid, payload@));
            return outs;
        },
    };
    let idx = match inst.find_client(client_id) {
        Some(i) => i,
        None => {
            state.instances.add(inst);
            proof { lemma_put_back(old(state).instances@, iid); }
            let p = make_quit_response(iid, QuitType::UnknownError, Some("You are not in the instance."));
            outs.push(Outgoing::new(client_id, uid, PacketType::Quit, p, Delivery::Reply));
            assert(outs_view(outs@) =~= spec_quit_outputs(*old(state), client_id, uid, payload@));
            return outs;
        },
    };
    let player_id = inst.players[idx].id;
    let was_ready = inst.players[idx].status == PlayerStatus::Ready;
    proof {
        assert(inst.players()[idx as int] == inst.client_player(client_id));
    }
    let quit_type = QuitType::from_u8(r.read_u8());
    let reason: Option<String> = if r.remaining() > 2 {
        r.read_string()
    } else {
        None
    };
    let ghost rs = opt_chars(reason);
    if was_ready {
        fanout(&state.clients, &inst, iid, player_id, client_id, quit_type, &reason, &mut outs);
    }
    let ghost fan = outs_view(outs@);
    proof {
        if !was_ready {
            assert(fan =~= Seq::<OutView>::empty());
        }
    }
    proof {
        assert(inst.has_player(player_id));
        assert(inst.player(player_id) == inst.players()[idx as int]);
    }
    inst.remove_player(player_id);
    state.instances.add(inst);
    let p = make_quit_response(iid, quit_type, opt_str(&reason));
    outs.push(Outgoing::new(client_id, uid, PacketType::Quit, p, Delivery::Reply));
    assert(outs_view(outs@) =~= fan.push(out(client_id, uid, PacketType::Quit, quit_payload(iid, quit_type, rs), Delivery::Reply)));
    outs
}

/// The clients of the ready players of `ps` other than `player_id`.
pub open spec fn ready_others(ps: Seq<Player>, player_id: u16) -> Seq<u16> {
    select_clients(ps, |o: Player| o.id != player_id && o.status == PlayerStatus::Ready)
}

/// What leaving instance `inst` (id `iid`) sends when client `cid` goes away:
/// a plain Leave to every other ready player, when its player was ready.
pub open spec fn leave_instance_outs(inst: Instance, iid: u8, clients: Map<u16, Client>, cid: u16) -> Seq<OutView> {
    if inst.has_client(cid) && inst.client_player(cid).status == PlayerStatus::Ready {
        let pid = inst.client_player(cid).id;
        pushes_to(ready_others(inst.players(), pid), clients, 0, PacketType::Leave, leave_payload(iid, pid, QuitType::Normal, None, None), Delivery::Push)
    } else {
        Seq::empty()
    }
}

/// The packets of leaving the instances `order`, one after the other.
pub open spec fn leave_all_outs(order: Seq<u8>, instances: Map<u8, Instance>, clients: Map<u16, Client>, cid: u16) -> Seq<OutView>
    decreases order.len(),
{
    if order.len() == 0 {
        Seq::empty()
    } else {
        leave_all_outs(order.drop_last(), instances, clients, cid) + leave_instance_outs(instances[order.last()], order.last(), clients, cid)
    }
}

/// Instance `after` is `before` once client `cid` (if it had a player there) left it.
pub open spec fn left_by_client(before: Instance, after: Instance, cid: u16) -> bool {
    if before.has_client(cid) {
        spec_after_leave(before, after, before.client_player(cid).id)
    } else {
        after == before
    }
}

/// The clients of the ready players other than `player_id`.
fn collect_ready_others(inst: &Instance, player_id: u16) -> (cids: Vec<u16>)
    ensures
        cids@ == ready_others(inst.players(), player_id),
{
    let ps = inst.get_players();
    let mut cids: Vec<u16> = Vec::new();
    let mut i: usize = 0;
    while i < ps.len()
        invariant
            ps@ == inst.players(),
            i <= ps@.len(),
            cids@ == ready_others(ps@.take(i as int), player_id),
        decreases ps@.len() - i,
    {
        proof {
            assert(ps@.take(i + 1).drop_last() =~= ps@.take(i as int));
        }
        if ps[i].id != player_id && ps[i].status == PlayerStatus::Ready {
            cids.push(ps[i].client_id);
        }
        i = i + 1;
    }
    assert(ps@.take(ps@.len() as int) =~= ps@);
    cids
}

/// Removes client `client_id` from every instance it is in; each ready player
/// removed is announced with a plain Leave to the other ready players. The
/// instances are visited in an order the registry does not fix.
pub fn leave_all_instances(state: &mut AppState, client_id: u16) -> (outs: Vec<Outgoing>)
    requires
        old(state).wf(),
    ensures
        final(state).wf(),
        final(state).clients@ == old(state).clients@,
        final(state).config == old(state).config,
        final(state).instances@.dom() == old(state).instances@.dom(),
        forall|k: u8| #[trigger] old(state).instances@.contains_key(k)
            ==> left_by_client(old(state).instances@[k], final(state).instances@[k], client_id),
        exists|order: Seq<u8>| #![trigger order.to_set()]
            order.no_duplicates() && order.to_set() == old(state).instances@.dom()
            && outs_view(outs@) == leave_all_outs(order, old(state).instances@, old(state).clients@, client_id),
        leaves_name_own_player(outs_view(outs@), old(state).instances@, client_id),
{
    let ids = state.instances.ids();
    let ghost old_insts = old(state).instances@;
    let mut outs: Vec<Outgoing> = Vec::new();
    assert(outs_view(outs@) =~= Seq::<OutView>::empty());
    let mut i: usize = 0;
    while i < ids.len()
        invariant
            ids@.no_duplicates(),
            ids@.to_set() == old_insts.dom(),
            old_insts == old(state).instances@,
            i <= ids@.len(),
            state.wf(),
            state.clients@ == old(state).clients@,
            state.config == old(state).config,
            state.instances@.dom() == old_insts.dom(),
            forall|k: u8| #[trigger] old_insts.contains_key(k) && ids@.take(i as int).contains(k)
                ==> left_by_client(old_insts[k], state.instances@[k], client_id),
            forall|k: u8| #[trigger] old_insts.contains_key(k) && !ids@.take(i as int).contains(k)
                ==> state.instances@[k] == old_insts[k],
            outs_view(outs@) == leave_all_outs(ids@.take(i as int), old_insts, old(state).clients@, client_id),
        decreases ids@.len() - i,
    {
        let iid = ids[i];
        proof {
            assert(ids@.take(i + 1).drop_last() =~= ids@.take(i as int));
            assert(ids@.to_set().contains(iid));
            assert(!ids@.take(i as int).contains(iid)) by {
                if ids@.take(i as int).contains(iid) {
                    let j = choose|j: int| 0 <= j < i && #[trigger] ids@.take(i as int)[j] == iid;
                    assert(ids@[j] == ids@[i as int]);
                }
            }
        }
        let ghost before_insts = state.instances@;
        let ghost before_outs = outs_view(outs@);
        let mut inst = state.instances.remove(iid).unwrap();
        assert(inst == old_insts[iid]);
        match inst.find_client(client_id) {
            None => {
                state.instances.add(inst);
                proof {
                    lemma_put_back(before_insts, iid);
                    assert(leave_instance_outs(old_insts[iid], iid, old(state).clients@, client_id) =~= Seq::<OutView>::empty());
                    assert(outs_view(outs@) =~= before_outs + Seq::<OutView>::empty());
                }
            },
            Some(idx) => {
                let player_id = inst.players[idx].id;
                proof {
                    assert(inst.players()[idx as int] == inst.client_player(client_id));
                    assert(inst.has_player(player_id));
                    assert(inst.player(player_id) == inst.players()[idx as int]);
                }
                if inst.players[idx].status == PlayerStatus::Ready {
                    let cids = collect_ready_others(&inst, player_id);
                    let leave = build_leave(iid, player_id, QuitType::Normal, None, None);
                    push_to_clients(&state.clients, &cids, 0, PacketType::Leave, &leave, Delivery::Push, &mut outs);
                } else {
                    assert(outs_view(outs@) =~= before_outs + Seq::<OutView>::empty());
                }
                inst.remove_player(player_id);
                state.instances.add(inst);
            },
        }
        proof {
            assert forall|k: u8| #[trigger] old_insts.contains_key(k) && ids@.take(i + 1).contains(k)
                implies left_by_client(old_insts[k], state.instances@[k], client_id) by {
                if k != iid {
                    assert(ids@.take(i as int).contains(k)) by {
                        let j = choose|j: int| 0 <= j < i + 1 && #[trigger] ids@.take(i + 1)[j] == k;
                        assert(j != i);
                        assert(ids@.take(i as int)[j] == k);
                    }
                }
            }
            assert forall|k: u8| #[trigger] old_insts.contains_key(k) && !ids@.take(i + 1).contains(k)
                implies state.instances@[k] == old_insts[k] by {
                assert(k != iid) by {
                    assert(ids@.take(i + 1)[i as int] == iid);
                }
                if ids@.take(i as int).contains(k) {
                    let j = choose|j: int| 0 <= j < i && #[trigger] ids@.take(i as int)[j] == k;
                    assert(ids@.take(i + 1)[j] == k);
                }
            }
        }
        i = i + 1;
    }
    proof {
        assert(ids@.take(ids@.len() as int) =~= ids@);
        assert forall|k: u8| #[trigger] old_insts.contains_key(k) implies ids@.contains(k) by {
            assert(ids@.to_set().contains(k));
        }
        assert forall|j: int| 0 <= j < ids@.len() implies #[trigger] old_insts.contains_key(ids@[j]) by {
            assert(ids@.to_set().contains(ids@[j]));
        }
        lemma_leave_all_own(ids@, old_insts, old(state).clients@, client_id);
    }
    outs
}

/// A player who quit is no longer in the instance, and the other players stay in order.
pub proof fn lemma_quit_removes_player(before: Instance, after: Instance, player_id: u16)
    requires
        before.wf(),
        before.has_player(player_id),
        spec_after_leave(before, after, player_id),
    ensures
        !after.has_player(player_id),
        after.players().len() == before.players().len() - 1,
{
    crate::instance::instance::lemma_remove_then_absent(before.players(), player_id);
}

/// A client with at most one player in an instance has none there once it left.
pub proof fn lemma_left_client_gone(before: Instance, after: Instance, client_id: u16)
    requires
        before.wf(),
        left_by_client(before, after, client_id),
        forall|i: int, j: int| 0 <= i < j < before.players().len() && (#[trigger] before.players()[i]).client_id == client_id
            ==> (#[trigger] before.players()[j]).client_id != client_id,
    ensures
        !after.has_client(client_id),
{
    if before.has_client(client_id) {
        let ps = before.players();
        let k = seq_client_index(ps, client_id);
        let p = before.client_player(client_id);
        assert(crate::instance::instance::is_first_of_client(ps, client_id, k)) by {
            let w = choose|i: int| 0 <= i < ps.len() && #[trigger] ps[i].client_id == client_id;
            crate::instance::instance::lemma_first_client(ps, client_id, w);
        }
        assert(before.has_player(p.id));
        let i = seq_player_index(ps, p.id);
        assert(ps[i].id == p.id);
        assert(i == k) by {
            if i != k {
                assert(ps[i].id != ps[k].id);
            }
        }
        let rest = ps.remove(i);
        if seq_has_client(rest, client_id) {
            let j = choose|j: int| 0 <= j < rest.len() && #[trigger] rest[j].client_id == client_id;
            let j0 = if j < i { j } else { j + 1 };
            assert(rest[j] == ps[j0]);
            if j0 < k {
                assert(ps[j0].client_id != client_id);
            } else {
                assert(ps[k].client_id == client_id);
            }
        }
    }
}

/// Whether each packet of `outs` is a Leave of one of `instances` naming the
/// player of client `cid` there.
pub open spec fn leaves_name_own_player(outs: Seq<OutView>, instances: Map<u8, Instance>, cid: u16) -> bool {
    forall|i: int| 0 <= i < outs.len() ==> #[trigger] leave_of_own_player(outs[i], instances, cid)
}

/// Whether `o` is a Leave of one of `instances` naming the player of client `cid` there.
pub open spec fn leave_of_own_player(o: OutView, instances: Map<u8, Instance>, cid: u16) -> bool {
    exists|k: u8| #![trigger instances[k]] instances.contains_key(k) && names_leaver(o, instances[k], k, cid)
}

/// Whether `o` is a Leave of instance `iid` naming, as the player who left,
/// the player of client `cid` there.
pub open spec fn names_leaver(o: OutView, inst: Instance, iid: u8, cid: u16) -> bool {
    &&& o.packet_type == PacketType::Leave
    &&& inst.has_client(cid)
    &&& o.payload.len() >= 4
    &&& o.payload[0] == iid
    &&& take_u16(o.payload.skip(2)).0 == inst.client_player(cid).id
}

proof fn lemma_leave_instance_names(inst: Instance, iid: u8, clients: Map<u16, Client>, cid: u16)
    ensures
        forall|i: int| 0 <= i < leave_instance_outs(inst, iid, clients, cid).len()
            ==> names_leaver(#[trigger] leave_instance_outs(inst, iid, clients, cid)[i], inst, iid, cid),
{
    if inst.has_client(cid) && inst.client_player(cid).status == PlayerStatus::Ready {
        let pid = inst.client_player(cid).id;
        let bytes = leave_payload(iid, inst.client_player(cid).id, QuitType::Normal, None, None);
        lemma_pushes_to_members(ready_others(inst.players(), pid), clients, 0, PacketType::Leave, bytes, Delivery::Push);
        assert(bytes =~= seq![iid, QuitType::Normal.spec_code()] + (le16(pid) + Seq::<u8>::empty()));
        assert(bytes.skip(2) =~= le16(pid) + Seq::<u8>::empty());
        lemma_u16_roundtrip(pid, Seq::empty());
    }
}

/// Leaving instances of `instances` in the order `order`, every Leave pushed
/// names the leaving client's own player.
proof fn lemma_leave_all_own(order: Seq<u8>, instances: Map<u8, Instance>, clients: Map<u16, Client>, cid: u16)
    requires
        forall|j: int| 0 <= j < order.len() ==> #[trigger] instances.contains_key(order[j]),
    ensures
        leaves_name_own_player(leave_all_outs(order, instances, clients, cid), instances, cid),
{
    lemma_leave_all_names_player(order, instances, clients, cid);
    let all = leave_all_outs(order, instances, clients, cid);
    assert forall|i: int| 0 <= i < all.len() implies #[trigger] leave_of_own_player(all[i], instances, cid) by {
        let j = choose|j: int| 0 <= j < order.len() && names_leaver(all[i], instances[order[j]], order[j], cid);
        let k = order[j];
        assert(instances.contains_key(k));
        assert(instances.contains_key(k) && names_leaver(all[i], instances[k], k, cid));
    }
}

/// When a client leaves all its instances, each Leave pushed names, in its
/// player-id field, that client's own player in the instance the Leave is
/// about (whatever order the instances are left in).
pub proof fn lemma_leave_all_names_player(order: Seq<u8>, instances: Map<u8, Instance>, clients: Map<u16, Client>, cid: u16)
    ensures
        forall|i: int| 0 <= i < leave_all_outs(order, instances, clients, cid).len() ==> exists|k: int|
            0 <= k < order.len() && names_leaver(
                #[trigger] leave_all_outs(order, instances, clients, cid)[i],
                instances[order[k]],
                order[k],
                cid,
            ),
    decreases order.len(),
{
    if order.len() > 0 {
        let init = order.drop_last();
        let last = order.last();
        lemma_leave_all_names_player(init, instances, clients, cid);
        lemma_leave_instance_names(instances[last], last, clients, cid);
        let a = leave_all_outs(init, instances, clients, cid);
        let b = leave_instance_outs(instances[last], last, clients, cid);
        let all = leave_all_outs(order, instances, clients, cid);
        assert(all == a + b);
        assert forall|i: int| 0 <= i < all.len() implies exists|k: int|
            0 <= k < order.len() && names_leaver(#[trigger] all[i], instances[order[k]], order[k], cid) by {
            if i < a.len() {
                assert(all[i] == a[i]);
                let k = choose|k: int| 0 <= k < init.len() && names_leaver(a[i], instances[init[k]], init[k], cid);
                assert(order[k] == init[k]);
            } else {
                assert(all[i] == b[i - a.len()]);
                assert(names_leaver(b[i - a.len()], instances[last], last, cid));
                assert(order[order.len() - 1] == last);
            }
        }
    }
}

} // verus!
