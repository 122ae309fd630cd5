//! PlayerUpdate: reads or changes the mutable fields of a player.
//!
//! Request: `[iid: u8][pid: u16][flags: u8]`, then `[display: string]` with
//! DISPLAY_NAME. No flag asks for every field.
//! Reply / broadcast: `[iid][Change][pid: u16][flags: u8](?[display: string])(?[player_flags: u32])`;
//! failure: `[iid][Failure][reason: string]`.
use vstd::prelude::*;

use super::context::{clients_except, collect_clients_except, lemma_put_back, push_to_clients, pushes_to, AppState};
use super::packet::{out, outs_view, Delivery, OutView, Outgoing, PacketType};
use crate::instance::instance::{same_settings, seq_player_index, Instance};
use crate::player::Player;
use crate::wire::{le16, le32, string_field, take_string, take_u16, take_u8, PacketReader, PacketWriter};

verus! {

pub const PU_NONE: u8 = 0x00;
pub const PU_DISPLAY_NAME: u8 = 0x01;
pub const PU_FLAGS: u8 = 0x02;
pub const PU_ALL: u8 = 0x03;

/// Result codes of a PlayerUpdate packet.
#[derive(Debug, Clone, Copy, PartialEq, Eq, Structural)]
pub enum PlayerUpdateResult {
    Success,
    Failure,
    Change,
}

impl PlayerUpdateResult {
    pub open spec fn spec_code(self) -> u8 {
        match self {
            PlayerUpdateResult::Success => 0,
            PlayerUpdateResult::Failure => 1,
            PlayerUpdateResult::Change => 2,
        }
    }

    pub fn code(self) -> (c: u8)
        ensures
            c == self.spec_code(),
    {
        match self {
            PlayerUpdateResult::Success => 0,
            PlayerUpdateResult::Failure => 1,
            PlayerUpdateResult::Change => 2,
        }
    }
}

/// The display shown in an update: the name, or nothing.
pub open spec fn display_chars(d: Option<String>) -> Seq<char> {
    match d {
        Some(s) => s@,
        None => Seq::empty(),
    }
}

/// `[iid][Change][pid][flags]` with the fields of `p` that `flags` selects.
pub open spec fn update_payload(iid: u8, pid: u16, flags: u8, p: Player) -> Seq<u8> {
    seq![iid, PlayerUpdateResult::Change.spec_code()] + le16(pid) + seq![flags] + (if flags & PU_DISPLAY_NAME != 0 {
        string_field(display_chars(p.display))
    } else {
        Seq::empty()
    }) + (if flags & PU_FLAGS != 0 {
        le32(p.flags)
    } else {
        Seq::empty()
    })
}

/// `[iid][Failure][reason]`.
pub open spec fn update_failure(iid: u8, reason: Seq<char>) -> Seq<u8> {
    seq![iid, PlayerUpdateResult::Failure.spec_code()] + string_field(reason)
}

/// The failure reply.
pub open spec fn update_fail(client_id: u16, uid: u16, iid: u8, reason: Seq<char>) -> Seq<OutView> {
    seq![out(client_id, uid, PacketType::PlayerUpdate, update_failure(iid, reason), Delivery::Reply)]
}

/// What a PlayerUpdate request from `client_id` sends, and the display name it
/// gives player `pid` (`Some` when the name changes).
pub open spec fn spec_player_update(state: AppState, client_id: u16, uid: u16, payload: Seq<u8>) -> (Seq<OutView>, Option<Option<Seq<char>>>) {
    let (iid, r1) = take_u8(payload);
    let (pid, r2) = take_u16(r1);
    let (raw, r3) = take_u8(r2);
    let req = raw & PU_ALL;
    let inst = state.instances@[iid];
    if !state.instances@.contains_key(iid) {
        (update_fail(client_id, uid, iid, "Instance not found."@), None)
    } else if !inst.has_player(pid) {
        (update_fail(client_id, uid, iid, "Player not found."@), None)
    } else if req == 0 {
        (seq![out(client_id, uid, PacketType::PlayerUpdate, update_payload(iid, pid, PU_ALL, inst.player(pid)), Delivery::Reply)], None)
    } else if req & PU_DISPLAY_NAME == 0 {
        (update_fail(client_id, uid, iid, "No valid update flags."@), None)
    } else {
        let display = take_string(r3).0;
        let p = inst.player(pid);
        let fields = seq![iid, PlayerUpdateResult::Change.spec_code()] + le16(pid) + seq![PU_ALL] + string_field(
            match display {
                Some(d) => d,
                None => Seq::empty(),
            },
        ) + le32(p.flags);
        (
            pushes_to(clients_except(inst.players(), Some(client_id)), state.clients@, 0, PacketType::PlayerUpdate, fields, Delivery::Push)
                .push(out(client_id, uid, PacketType::PlayerUpdate, fields, Delivery::Reply)),
            Some(display),
        )
    }
}

fn failure_reply(client_id: u16, uid: u16, iid: u8, reason: &str) -> (o: Vec<Outgoing>)
    ensures
        outs_view(o@) == update_fail(client_id, uid, iid, reason@),
{
    let mut w = PacketWriter::new();
    w.write_u8(iid);
    w.write_u8(PlayerUpdateResult::Failure.code());
    w.write_string(reason);
    let ghost v = w@;
    assert(v =~= update_failure(iid, reason@));
    let mut outs: Vec<Outgoing> = Vec::new();
    outs.push(Outgoing::new(client_id, uid, PacketType::PlayerUpdate, w.finish(), Delivery::Reply));
    assert(outs_view(outs@) =~= update_fail(client_id, uid, iid, reason@));
    outs
}

/// Builds the update of player `p` with the fields `flags` selects.
pub fn build_update(iid: u8, pid: u16, flags: u8, p: &Player) -> (bytes: Vec<u8>)
    ensures
        bytes@ == update_payload(iid, pid, flags, *p),
{
    let mut w = PacketWriter::new();
    w.write_u8(iid);
    w.write_u8(PlayerUpdateResult::Change.code());
    w.write_u16(pid);
    w.write_u8(flags);
    let ghost w0 = w@;
    if flags & PU_DISPLAY_NAME != 0 {
        match &p.display {
            Some(d) => w.write_string(d.as_str()),
            None => w.write_string(""),
        }
        proof { reveal_strlit(""); }
    }
    let ghost w1 = w@;
    assert(w1 =~= w0 + (if flags & PU_DISPLAY_NAME != 0 {
        string_field(display_chars(p.display))
    } else {
        Seq::empty()
    }));
    if flags & PU_FLAGS != 0 {
        w.write_u32(p.flags);
    }
    let ghost v = w@;
    assert(v =~= update_payload(iid, pid, flags, *p));
    w.finish()
}

/// Handles a PlayerUpdate request from client `client_id`.
pub fn handle(state: &mut AppState, client_id: u16, uid: u16, payload: Vec<u8>) -> (outs: Vec<Outgoing>)
    requires
        old(state).wf(),
    ensures
        final(state).wf(),
        final(state).clients@ == old(state).clients@,
        final(state).config == old(state).config,
        ({
            let (sent, change) = spec_player_update(*old(state), client_id, uid, payload@);
            let iid = take_u8(payload@).0;
            let pid = take_u16(take_u8(payload@).1).0;
            &&& outs_view(outs@) == sent
            &&& match change {
                None => final(state).instances@ == old(state).instances@,
                Some(display) => {
                    let before = old(state).instances@[iid];
                    let after = final(state).instances@[iid];
                    let i = seq_player_index(before.players(), pid);
                    &&& final(state).instances@.dom() == old(state).instances@.dom()
                    &&& forall|k: u8| k != iid && #[trigger] old(state).instances@.contains_key(k)
                        ==> final(state).instances@[k] == old(state).instances@[k]
                    &&& after.wf()
                    &&& after.players() == before.players().update(
                        i,
                        Player { display: after.players()[i].display, ..before.player(pid) },
                    )
                    &&& display_chars(after.players()[i].display) == match display {
                        Some(d) => d,
                        None => Seq::<char>::empty(),
                    }
                    &&& (after.players()[i].display is Some <==> display is Some)
                    &&& after.groups() == before.groups()
                    &&& same_settings(after, before)
                },
            }
        }),
{
    let mut r = PacketReader::new(payload);
    let iid = r.read_u8();
    let pid = r.read_u16();
    let mut inst = match state.instances.remove(iid) {
        Some(i) => i,
        None => return failure_reply(client_id, uid, iid, "Instance not found."),
    };
    let idx = match inst.find_player(pid) {
        Some(j) => j,
        None => {
            state.instances.add(inst);
            proof { lemma_put_back(old(state).instances@, iid); }
            return failure_reply(client_id, uid, iid, "Player not found.");
        },
    };
    proof { assert(inst.player(pid) == inst.players()[idx as int]); }
    let req = r.read_u8() & PU_ALL;
    if req == 0 {
        let bytes = build_update(iid, pid, PU_ALL, &inst.players[idx]);
        state.instances.add(inst);
        proof { lemma_put_back(old(state).instances@, iid); }
        let mut outs: Vec<Outgoing> = Vec::new();
        outs.push(Outgoing::new(client_id, uid, PacketType::PlayerUpdate, bytes, Delivery::Reply));
        assert(outs_view(outs@) =~= seq![out(client_id, uid, PacketType::PlayerUpdate, update_payload(iid, pid, PU_ALL, old(state).instances@[iid].player(pid)), Delivery::Reply)]);
        return outs;
    }
    if req & PU_DISPLAY_NAME == 0 {
        state.instances.add(inst);
        proof { lemma_put_back(old(state).instances@, iid); }
        return failure_reply(client_id, uid, iid, "No valid update flags.");
    }
    let display = r.read_string();
    let ghost dv = crate::instance::view_group::opt_chars(display);
    let ghost inst0 = inst;
    let cids = collect_clients_except(&inst, Some(client_id));
    inst.set_player_display(pid, display);
    let bytes = build_update(iid, pid, PU_ALL, &inst.players[idx]);
    proof {
        assert(PU_ALL & PU_DISPLAY_NAME != 0) by (bit_vector);
        assert(PU_ALL & PU_FLAGS != 0) by (bit_vector);
        assert(inst.players()[idx as int] == Player { display: inst.players()[idx as int].display, ..inst0.player(pid) });
        assert(display_chars(inst.players()[idx as int].display) == match dv {
            Some(d) => d,
            None => Seq::<char>::empty(),
        });
        assert(bytes@ =~= seq![iid, PlayerUpdateResult::Change.spec_code()] + le16(pid) + seq![PU_ALL] + string_field(
            match dv {
                Some(d) => d,
                None => Seq::empty(),
            },
        ) + le32(inst0.player(pid).flags));
    }
    state.instances.add(inst);
    let mut outs: Vec<Outgoing> = Vec::new();
    assert(outs_view(outs@) =~= Seq::<OutView>::empty());
    push_to_clients(&state.clients, &cids, 0, PacketType::PlayerUpdate, &bytes, Delivery::Push, &mut outs);
    let ghost pushed = outs_view(outs@);
    assert(pushed =~= pushes_to(cids@, old(state).clients@, 0, PacketType::PlayerUpdate, bytes@, Delivery::Push));
    outs.push(Outgoing::new(client_id, uid, PacketType::PlayerUpdate, bytes, Delivery::Reply));
    assert(outs_view(outs@) =~= pushed.push(out(client_id, uid, PacketType::PlayerUpdate, bytes@, Delivery::Reply)));
    outs
}

} // verus!
