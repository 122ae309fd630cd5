//! AvatarChanged: a player (or a privileged player, for another one) equips
//! an avatar.
//!
//! Request: `[iid: u8][pid: u16][avatar_id: u32][server: string][version: u16]`.
//! Reply: `[iid][Success]`, or `[iid][Failed][reason: string]`.
//! Pushed to the others: `[iid][Changing][player: u16][avatar_id: u32][server: string][version: u16]`.
use vstd::prelude::*;

use super::context::{clients_except, collect_clients_except, lemma_put_back, push_to_clients, pushes_to, AppState};
use super::packet::{out, outs_view, Delivery, OutView, Outgoing, PacketType};
use crate::avatar::Avatar;
use crate::instance::instance::{same_settings, seq_player_index, Instance};
use crate::player::{Player, PlayerStatus};
use crate::wire::{le16, le32, string_field, take_string, take_u16, take_u32, take_u8, PacketReader, PacketWriter};

verus! {

/// Result codes of an AvatarChanged packet.
#[derive(Debug, Clone, Copy, PartialEq, Eq, Structural)]
pub enum AvatarChangedResult {
    Changing,
    Failed,
    Success,
}

impl AvatarChangedResult {
    pub open spec fn spec_code(self) -> u8 {
        match self {
            AvatarChangedResult::Changing => 0,
            AvatarChangedResult::Failed => 2,
            AvatarChangedResult::Success => 3,
        }
    }

    pub fn code(self) -> (c: u8)
        ensures
            c == self.spec_code(),
    {
        match self {
            AvatarChangedResult::Changing => 0,
            AvatarChangedResult::Failed => 2,
            AvatarChangedResult::Success => 3,
        }
    }
}

/// `[iid][Failed][reason]`.
pub open spec fn avatar_error(iid: u8, reason: Seq<char>) -> Seq<u8> {
    seq![iid, AvatarChangedResult::Failed.spec_code()] + string_field(reason)
}

/// The announcement of player `pid`'s new avatar.
pub open spec fn avatar_broadcast(iid: u8, pid: u16, avatar_id: u32, server: Seq<char>, version: u16) -> Seq<u8> {
    seq![iid, AvatarChangedResult::Changing.spec_code()] + le16(pid) + le32(avatar_id) + string_field(server) + le16(version)
}

/// Whether `a` is the avatar `(avatar_id, server, version)` with no parameters.
pub open spec fn avatar_is(a: Avatar, avatar_id: u32, server: Seq<char>, version: u16) -> bool {
    a.id == avatar_id && a.server@ == server && a.version == version && a.parameters@ == Map::<i32, Vec<u8>>::empty()
}

/// The player whose avatar changes (the sender's own, or `pid` when a
/// privileged sender names another ready player), or why not.
pub open spec fn avatar_target(inst: Instance, client_id: u16, pid: u16) -> Result<u16, Seq<char>> {
    if !inst.has_client(client_id) || inst.client_player(client_id).status != PlayerStatus::Ready {
        Err("You are not a valid player"@)
    } else {
        let me = inst.client_player(client_id);
        let other = pid != u16::MAX && pid != me.id;
        if other && !(inst.has_player(pid) && inst.player(pid).status == PlayerStatus::Ready) {
            Err("Player not found"@)
        } else if other && !me.spec_has_privilege() {
            Err("You are not allowed to change this player's avatar"@)
        } else if other {
            Ok(pid)
        } else {
            Ok(me.id)
        }
    }
}

/// The failure reply.
pub open spec fn avatar_fail(client_id: u16, uid: u16, iid: u8, reason: Seq<char>) -> Seq<OutView> {
    seq![out(client_id, uid, PacketType::AvatarChanged, avatar_error(iid, reason), Delivery::Reply)]
}

/// What an AvatarChanged request from `client_id` sends, and the avatar it
/// gives to which player: `(player, avatar id, server, version)`.
pub open spec fn spec_avatar_changed(state: AppState, client_id: u16, uid: u16, payload: Seq<u8>) -> (Seq<OutView>, Option<(u16, u32, Seq<char>, u16)>) {
    let (iid, r1) = take_u8(payload);
    let (pid, r2) = take_u16(r1);
    let inst = state.instances@[iid];
    if !state.instances@.contains_key(iid) {
        (avatar_fail(client_id, uid, iid, "Invalid instance"@), None)
    } else {
        match avatar_target(inst, client_id, pid) {
            Err(reason) => (avatar_fail(client_id, uid, iid, reason), None),
            Ok(op) => {
                let (avatar_id, r3) = take_u32(r2);
                let (server, r4) = take_string(r3);
                let server = match server {
                    Some(s) => s,
                    None => Seq::empty(),
                };
                let version = take_u16(r4).0;
                (
                    pushes_to(
                        clients_except(inst.players(), Some(client_id)),
                        state.clients@,
                        0,
                        PacketType::AvatarChanged,
                        avatar_broadcast(iid, op, avatar_id, server, version),
                        Delivery::Push,
                    ).push(out(client_id, uid, PacketType::AvatarChanged, seq![iid, AvatarChangedResult::Success.spec_code()], Delivery::Reply)),
                    Some((op, avatar_id, server, version)),
                )
            },
        }
    }
}

fn resolve_target(inst: &Instance, client_id: u16, pid: u16) -> (r: Result<u16, &'static str>)
    requires
        inst.wf(),
    ensures
        match r {
            Ok(op) => avatar_target(*inst, client_id, pid) == Ok::<u16, Seq<char>>(op) && inst.has_player(op),
            Err(s) => avatar_target(*inst, client_id, pid) == Err::<u16, Seq<char>>(s@),
        },
{
    proof {
        reveal_strlit("You are not a valid player");
        reveal_strlit("Player not found");
        reveal_strlit("You are not allowed to change this player's avatar");
    }
    let idx = match inst.find_client(client_id) {
        Some(i) => i,
        None => return Err("You are not a valid player"),
    };
    proof {
        assert(inst.players()[idx as int] == inst.client_player(client_id));
    }
    if inst.players[idx].status != PlayerStatus::Ready {
        return Err("You are not a valid player");
    }
    let me = inst.players[idx].id;
    proof {
        assert(inst.has_player(me));
    }
    let other = pid != u16::MAX && pid != me;
    if !other {
        return Ok(me);
    }
    let found = match inst.find_player(pid) {
        Some(j) => {
            proof { assert(inst.player(pid) == inst.players()[j as int]); }
            inst.players[j].status == PlayerStatus::Ready
        },
        None => false,
    };
    if !found {
        return Err("Player not found");
    }
    if !inst.players[idx].has_privilege() {
        return Err("You are not allowed to change this player's avatar");
    }
    Ok(pid)
}

fn error_reply(client_id: u16, uid: u16, iid: u8, reason: &str) -> (o: Vec<Outgoing>)
    ensures
        outs_view(o@) == seq![out(client_id, uid, PacketType::AvatarChanged, avatar_error(iid, reason@), Delivery::Reply)],
{
    let mut w = PacketWriter::new();
    w.write_u8(iid);
    w.write_u8(AvatarChangedResult::Failed.code());
    w.write_string(reason);
    let ghost v = w@;
    assert(v =~= avatar_error(iid, reason@));
    let mut outs: Vec<Outgoing> = Vec::new();
    outs.push(Outgoing::new(client_id, uid, PacketType::AvatarChanged, w.finish(), Delivery::Reply));
    assert(outs_view(outs@) =~= seq![out(client_id, uid, PacketType::AvatarChanged, avatar_error(iid, reason@), Delivery::Reply)]);
    outs
}

/// Handles an AvatarChanged request from client `client_id`.
pub fn handle(state: &mut AppState, client_id: u16, uid: u16, payload: Vec<u8>) -> (outs: Vec<Outgoing>)
    requires
        old(state).wf(),
    ensures
        final(state).wf(),
        final(state).clients@ == old(state).clients@,
        final(state).config == old(state).config,
        ({
            let (sent, change) = spec_avatar_changed(*old(state), client_id, uid, payload@);
            let iid = take_u8(payload@).0;
            &&& outs_view(outs@) == sent
            &&& match change {
                None => final(state).instances@ == old(state).instances@,
                Some((op, avatar_id, server, version)) => {
                    let before = old(state).instances@[iid];
                    let after = final(state).instances@[iid];
                    &&& final(state).instances@.dom() == old(state).instances@.dom()
                    &&& forall|k: u8| k != iid && #[trigger] old(state).instances@.contains_key(k)
                        ==> final(state).instances@[k] == old(state).instances@[k]
                    &&& after.wf()
                    &&& {
                        let i = seq_player_index(before.players(), op);
                        &&& after.players() == before.players().update(
                            i,
                            Player { avatar: after.players()[i].avatar, ..before.player(op) },
                        )
                        &&& after.players()[i].avatar matches Some(a) && avatar_is(a, avatar_id, server, version)
                    }
                    &&& after.groups() == before.groups()
                    &&& same_settings(after, before)
                },
            }
        }),
{
    let mut r = PacketReader::new(payload);
    let iid = r.read_u8();
    let pid = r.read_u16();
    let mut inst = match state.instances.remove(iid) {
        Some(i) => i,
        None => return error_reply(client_id, uid, iid, "Invalid instance"),
    };
    let op = match resolve_target(&inst, client_id, pid) {
        Ok(op) => op,
        Err(reason) => {
            state.instances.add(inst);
            proof { lemma_put_back(old(state).instances@, iid); }
            return error_reply(client_id, uid, iid, reason);
        },
    };
    let avatar_id = r.read_u32();
    let server = match r.read_string() {
        Some(s) => s,
        None => String::new(),
    };
    let version = r.read_u16();
    let mut w = PacketWriter::new();
    w.write_u8(iid);
    w.write_u8(AvatarChangedResult::Changing.code());
    w.write_u16(op);
    w.write_u32(avatar_id);
    w.write_string(server.as_str());
    w.write_u16(version);
    let ghost v = w@;
    assert(v =~= avatar_broadcast(iid, op, avatar_id, server@, version));
    let bytes = w.finish();
    let ghost server_v = server@;
    let avatar = Avatar::new(avatar_id, server, version);
    let ghost av = avatar;
    assert(avatar_is(av, avatar_id, server_v, version));
    let cids = collect_clients_except(&inst, Some(client_id));
    let ghost inst0 = inst;
    inst.set_player_avatar(op, avatar);
    state.instances.add(inst);
    let mut outs: Vec<Outgoing> = Vec::new();
    assert(outs_view(outs@) =~= Seq::<OutView>::empty());
    push_to_clients(&state.clients, &cids, 0, PacketType::AvatarChanged, &bytes, Delivery::Push, &mut outs);
    let ghost pushed = outs_view(outs@);
    let mut w2 = PacketWriter::new();
    w2.write_u8(iid);
    w2.write_u8(AvatarChangedResult::Success.code());
    let ghost v2 = w2@;
    assert(v2 =~= seq![iid, AvatarChangedResult::Success.spec_code()]);
    outs.push(Outgoing::new(client_id, uid, PacketType::AvatarChanged, w2.finish(), Delivery::Reply));
    assert(outs_view(outs@) =~= pushed.push(out(client_id, uid, PacketType::AvatarChanged, seq![iid, AvatarChangedResult::Success.spec_code()], Delivery::Reply)));
    assert(pushed =~= Seq::<OutView>::empty() + pushes_to(cids@, old(state).clients@, 0, PacketType::AvatarChanged, bytes@, Delivery::Push));
    proof {
        let i = seq_player_index(inst0.players(), op);
        assert(state.instances@[iid].players()[i] == Player { avatar: Some(av), ..inst0.player(op) });
    }
    outs
}

} // verus!
