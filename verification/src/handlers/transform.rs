//! Transform: spatial updates, sent and forwarded as datagrams.
//!
//! EntityPart: `[iid: u8][1][pid: u16][rig: u16][flags: u8]` then, per flag,
//! position `vec3`, rotation `quat`, scale `vec3`, velocity `vec3`, angular
//! velocity `vec3`. Forwarded as `[iid][1][entity: u16][rig][flags][...][broadcaster: u16]`.
//!
//! ByPath: `[iid: u8][0][path: string][flags: u8][...]`, forwarded as
//! `[iid][0][path][flags][...][player: u16]`.
use vstd::prelude::*;

use super::context::{client_of_some, lemma_clients_except_members, lemma_clients_seeing_members, lemma_pushes_to_members, 
    clients_except, clients_seeing, collect_clients_except, collect_clients_seeing, lemma_put_back, push_to_clients,
    pushes_to, AppState,
};
use super::packet::{outs_view, Delivery, OutView, Outgoing, PacketType};
use crate::instance::instance::{same_settings, seq_player_index, Instance};
use crate::player::player_transform::PlayerTransforms;
use crate::player::rig::{
    QuatBits, Transform, Vec3Bits, ANG_VELOCITY, POSITION, RESET, ROTATION, SCALE, VELOCITY,
};
use crate::player::PlayerStatus;
use crate::wire::{le16, le32, string_field, take_string, take_u16, take_u32, take_u8, PacketReader, PacketWriter};

verus! {

/// The two kinds of Transform packets.
#[derive(Debug, Clone, Copy, PartialEq, Eq, Structural)]
pub enum TransformType {
    ByPath,
    EntityPart,
}

impl TransformType {
    /// The wire code.
    pub fn code(self) -> (c: u8)
        ensures
            c == match self {
                TransformType::ByPath => BY_PATH,
                TransformType::EntityPart => ENTITY_PART,
            },
    {
        match self {
            TransformType::ByPath => BY_PATH,
            TransformType::EntityPart => ENTITY_PART,
        }
    }
}

/// Sub-type: a transform addressed by a scene path.
pub const BY_PATH: u8 = 0;
/// Sub-type: a rig part of a player.
pub const ENTITY_PART: u8 = 1;
/// Every defined transform flag (fields and reset).
pub const FLAGS_KNOWN: u8 = 0x3F;
/// The field flags (reset excluded).
pub const FIELD_FLAGS: u8 = 0x1F;

/// A `vec3` field and the bytes after it.
pub open spec fn take_vec3(s: Seq<u8>) -> (Vec3Bits, Seq<u8>) {
    let (x, s1) = take_u32(s);
    let (y, s2) = take_u32(s1);
    let (z, s3) = take_u32(s2);
    (Vec3Bits { x, y, z }, s3)
}

/// A `quat` field and the bytes after it.
pub open spec fn take_quat(s: Seq<u8>) -> (QuatBits, Seq<u8>) {
    let (x, s1) = take_u32(s);
    let (y, s2) = take_u32(s1);
    let (z, s3) = take_u32(s2);
    let (w, s4) = take_u32(s3);
    (QuatBits { x, y, z, w }, s4)
}

pub open spec fn vec3_bytes(v: Vec3Bits) -> Seq<u8> {
    le32(v.x) + le32(v.y) + le32(v.z)
}

pub open spec fn quat_bytes(q: QuatBits) -> Seq<u8> {
    le32(q.x) + le32(q.y) + le32(q.z) + le32(q.w)
}

/// `base` with the fields present in `flags` read from `s`, in wire order.
pub open spec fn read_fields(flags: u8, base: Transform, s: Seq<u8>) -> Transform {
    let (position, s1) = if flags & POSITION != 0 { take_vec3(s) } else { (base.position, s) };
    let (rotation, s2) = if flags & ROTATION != 0 { take_quat(s1) } else { (base.rotation, s1) };
    let (scale, s3) = if flags & SCALE != 0 { take_vec3(s2) } else { (base.scale, s2) };
    let (velocity, s4) = if flags & VELOCITY != 0 { take_vec3(s3) } else { (base.velocity, s3) };
    let ang_velocity = if flags & ANG_VELOCITY != 0 { take_vec3(s4).0 } else { base.ang_velocity };
    Transform { position, rotation, scale, velocity, ang_velocity }
}

/// `bytes` when `flags` has `bit`.
pub open spec fn field_when(flags: u8, bit: u8, bytes: Seq<u8>) -> Seq<u8> {
    if flags & bit != 0 {
        bytes
    } else {
        Seq::empty()
    }
}

/// The fields of `tr` present in `flags`, in wire order.
pub open spec fn transform_fields(flags: u8, tr: Transform) -> Seq<u8> {
    field_when(flags, POSITION, vec3_bytes(tr.position)) + field_when(flags, ROTATION, quat_bytes(tr.rotation))
        + field_when(flags, SCALE, vec3_bytes(tr.scale)) + field_when(flags, VELOCITY, vec3_bytes(tr.velocity))
        + field_when(flags, ANG_VELOCITY, vec3_bytes(tr.ang_velocity))
}

/// The forwarded EntityPart.
pub open spec fn entity_part_payload(iid: u8, entity: u16, broadcaster: u16, rig: u16, flags: u8, tr: Transform) -> Seq<u8> {
    seq![iid, ENTITY_PART] + le16(entity) + le16(rig) + seq![flags] + transform_fields(flags, tr) + le16(broadcaster)
}

/// The forwarded ByPath.
pub open spec fn by_path_payload(iid: u8, path: Seq<char>, player: u16, flags: u8, tr: Transform) -> Seq<u8> {
    seq![iid, BY_PATH] + string_field(path) + seq![flags] + transform_fields(flags, tr) + le16(player)
}

fn read_vec3(r: &mut PacketReader) -> (v: Vec3Bits)
    requires
        old(r).wf(),
    ensures
        final(r).wf(),
        (v, final(r)@) == take_vec3(old(r)@),
{
    let x = r.read_u32();
    let y = r.read_u32();
    let z = r.read_u32();
    Vec3Bits { x, y, z }
}

fn read_quat(r: &mut PacketReader) -> (q: QuatBits)
    requires
        old(r).wf(),
    ensures
        final(r).wf(),
        (q, final(r)@) == take_quat(old(r)@),
{
    let x = r.read_u32();
    let y = r.read_u32();
    let z = r.read_u32();
    let w = r.read_u32();
    QuatBits { x, y, z, w }
}

/// Reads the fields present in `flags` over `base`.
pub fn read_transform(r: &mut PacketReader, flags: u8, base: Transform) -> (tr: Transform)
    requires
        old(r).wf(),
    ensures
        final(r).wf(),
        tr == read_fields(flags, base, old(r)@),
{
    let mut tr = base;
    if flags & POSITION != 0 {
        tr.position = read_vec3(r);
    }
    if flags & ROTATION != 0 {
        tr.rotation = read_quat(r);
    }
    if flags & SCALE != 0 {
        tr.scale = read_vec3(r);
    }
    if flags & VELOCITY != 0 {
        tr.velocity = read_vec3(r);
    }
    if flags & ANG_VELOCITY != 0 {
        tr.ang_velocity = read_vec3(r);
    }
    tr
}

fn write_vec3(w: &mut PacketWriter, v: Vec3Bits)
    ensures
        final(w)@ == old(w)@ + vec3_bytes(v),
{
    w.write_u32(v.x);
    w.write_u32(v.y);
    w.write_u32(v.z);
    assert(w@ =~= old(w)@ + vec3_bytes(v));
}

fn write_quat(w: &mut PacketWriter, q: QuatBits)
    ensures
        final(w)@ == old(w)@ + quat_bytes(q),
{
    w.write_u32(q.x);
    w.write_u32(q.y);
    w.write_u32(q.z);
    w.write_u32(q.w);
    assert(w@ =~= old(w)@ + quat_bytes(q));
}

fn vec3_when(w: &mut PacketWriter, flags: u8, bit: u8, v: Vec3Bits)
    ensures
        final(w)@ == old(w)@ + field_when(flags, bit, vec3_bytes(v)),
{
    if flags & bit != 0 {
        write_vec3(w, v);
    } else {
        assert(w@ =~= old(w)@ + Seq::<u8>::empty());
    }
}

/// Appends the fields of `tr` present in `flags`.
pub fn write_transform_fields(w: &mut PacketWriter, flags: u8, tr: &Transform)
    ensures
        final(w)@ == old(w)@ + transform_fields(flags, *tr),
{
    let ghost w0 = w@;
    vec3_when(w, flags, POSITION, tr.position);
    if flags & ROTATION != 0 {
        write_quat(w, tr.rotation);
    } else {
        assert(w@ =~= w@ + Seq::<u8>::empty());
    }
    let ghost w2 = w@;
    vec3_when(w, flags, SCALE, tr.scale);
    vec3_when(w, flags, VELOCITY, tr.velocity);
    vec3_when(w, flags, ANG_VELOCITY, tr.ang_velocity);
    assert(w@ =~= w0 + transform_fields(flags, *tr));
}

/// Builds a forwarded EntityPart.
pub fn build_entity_part(iid: u8, entity: u16, broadcaster: u16, rig: u16, flags: u8, tr: &Transform) -> (bytes: Vec<u8>)
    ensures
        bytes@ == entity_part_payload(iid, entity, broadcaster, rig, flags, *tr),
{
    let mut w = PacketWriter::new();
    w.write_u8(iid);
    w.write_u8(ENTITY_PART);
    w.write_u16(entity);
    w.write_u16(rig);
    w.write_u8(flags);
    write_transform_fields(&mut w, flags, tr);
    w.write_u16(broadcaster);
    let ghost v = w@;
    assert(v =~= entity_part_payload(iid, entity, broadcaster, rig, flags, *tr));
    w.finish()
}

/// Builds a forwarded ByPath.
pub fn build_by_path(iid: u8, path: &str, player: u16, flags: u8, tr: &Transform) -> (bytes: Vec<u8>)
    ensures
        bytes@ == by_path_payload(iid, path@, player, flags, *tr),
{
    let mut w = PacketWriter::new();
    w.write_u8(iid);
    w.write_u8(BY_PATH);
    w.write_string(path);
    w.write_u8(flags);
    write_transform_fields(&mut w, flags, tr);
    w.write_u16(player);
    let ghost v = w@;
    assert(v =~= by_path_payload(iid, path@, player, flags, *tr));
    w.finish()
}

/// A transform update to store: player, rig part, field flags, transform, reset.
pub type TransformUpdate = (u16, u16, u8, Transform, bool);

/// The transform player `op` has stored for `rig`, else the default one.
pub open spec fn stored_or_default(inst: Instance, op: u16, rig: u16) -> Transform {
    let t = inst.player(op).transforms@;
    if t.contains_key(rig) {
        t[rig].1
    } else {
        Transform::spec_default()
    }
}

/// What a Transform datagram from `client_id` forwards, and the update it stores.
pub open spec fn spec_transform(state: AppState, client_id: u16, payload: Seq<u8>) -> (Seq<OutView>, Option<TransformUpdate>) {
    let (iid, r1) = take_u8(payload);
    let (sub, r2) = take_u8(r1);
    let inst = state.instances@[iid];
    if !state.instances@.contains_key(iid) || !inst.has_client(client_id)
        || inst.client_player(client_id).status != PlayerStatus::Ready {
        (Seq::empty(), None)
    } else if sub == ENTITY_PART {
        let me = inst.client_player(client_id).id;
        let (pid, r3) = take_u16(r2);
        let other = pid != u16::MAX && pid != me;
        if other && !(inst.has_player(pid) && inst.player(pid).status == PlayerStatus::Ready
            && inst.client_player(client_id).spec_has_privilege()) {
            (Seq::empty(), None)
        } else {
            let op = if other { pid } else { me };
            let (rig, r4) = take_u16(r3);
            let (raw, r5) = take_u8(r4);
            let flags = raw & FLAGS_KNOWN;
            let reset = flags & RESET != 0;
            let base = if reset { Transform::spec_default() } else { stored_or_default(inst, op, rig) };
            let tr = read_fields(flags, base, r5);
            let active = flags & FIELD_FLAGS;
            (
                pushes_to(
                    clients_seeing(inst.players(), inst.groups(), op, Some(client_id)),
                    state.clients@,
                    0,
                    PacketType::Transform,
                    entity_part_payload(iid, op, me, rig, active, tr),
                    Delivery::Datagram,
                ),
                Some((op, rig, active, tr, reset)),
            )
        }
    } else if sub == BY_PATH && inst.client_player(client_id).spec_has_privilege() {
        let me = inst.client_player(client_id).id;
        let (path, r3) = take_string(r2);
        match path {
            Some(p) if p.len() > 0 => {
                let (raw, r4) = take_u8(r3);
                let flags = raw & FLAGS_KNOWN;
                let tr = read_fields(flags, Transform::spec_default(), r4);
                (
                    pushes_to(
                        clients_except(inst.players(), Some(client_id)),
                        state.clients@,
                        0,
                        PacketType::Transform,
                        by_path_payload(iid, p, me, flags & FIELD_FLAGS, tr),
                        Delivery::Datagram,
                    ),
                    None,
                )
            },
            _ => (Seq::empty(), None),
        }
    } else {
        (Seq::empty(), None)
    }
}

/// `after` is `before` with the update stored for player `op` (see `PlayerTransforms::set`).
pub open spec fn transform_stored(before: Instance, after: Instance, op: u16, rig: u16, flags: u8, tr: Transform, reset: bool) -> bool {
    let i = seq_player_index(before.players(), op);
    let p = before.player(op);
    &&& after.wf()
    &&& after.players().len() == before.players().len()
    &&& forall|j: int| 0 <= j < before.players().len() && j != i ==> #[trigger] after.players()[j] == before.players()[j]
    &&& after.players()[i].transforms@ == p.transforms@.insert(
        rig,
        PlayerTransforms::updated_entry(p.transforms@, rig, flags, tr, reset),
    )
    &&& after.players()[i].id == p.id
    &&& after.players()[i].client_id == p.client_id
    &&& after.players()[i].status == p.status
    &&& after.players()[i].flags == p.flags
    &&& after.groups() == before.groups()
    &&& same_settings(after, before)
}

/// Handles a Transform datagram from client `client_id`.
#[verifier::spinoff_prover]
#[verifier::rlimit(40)]
pub fn handle(state: &mut AppState, client_id: u16, payload: Vec<u8>) -> (outs: Vec<Outgoing>)
    requires
        old(state).wf(),
    ensures
        final(state).wf(),
        final(state).clients@ == old(state).clients@,
        final(state).config == old(state).config,
        ({
            let (sent, upd) = spec_transform(*old(state), client_id, payload@);
            let iid = take_u8(payload@).0;
            &&& outs_view(outs@) == sent
            &&& match upd {
                None => final(state).instances@ == old(state).instances@,
                Some((op, rig, flags, tr, reset)) => {
                    &&& final(state).instances@.dom() == old(state).instances@.dom()
                    &&& forall|k: u8| k != iid && #[trigger] old(state).instances@.contains_key(k)
                        ==> final(state).instances@[k] == old(state).instances@[k]
                    &&& transform_stored(old(state).instances@[iid], final(state).instances@[iid], op, rig, flags, tr, reset)
                },
            }
        }),
{
    let mut outs: Vec<Outgoing> = Vec::new();
    assert(outs_view(outs@) =~= Seq::<OutView>::empty());
    let mut r = PacketReader::new(payload);
    let iid = r.read_u8();
    let mut inst = match state.instances.remove(iid) {
        Some(i) => i,
        None => return outs,
    };
    let sub = r.read_u8();
    let idx = match inst.find_client(client_id) {
        Some(i) => i,
        None => {
            state.instances.add(inst);
            proof { lemma_put_back(old(state).instances@, iid); }
            return outs;
        },
    };
    proof {
        assert(inst.players()[idx as int] == inst.client_player(client_id));
    }
    let me = inst.players[idx].id;
    let privileged = inst.players[idx].has_privilege();
    if inst.players[idx].status != PlayerStatus::Ready {
        state.instances.add(inst);
        proof { lemma_put_back(old(state).instances@, iid); }
        return outs;
    }
    if sub == ENTITY_PART {
        let pid = r.read_u16();
        let other = pid != u16::MAX && pid != me;
        if other {
            let ok = match inst.find_player(pid) {
                Some(j) => {
                    proof { assert(inst.player(pid) == inst.players()[j as int]); }
                    inst.players[j].status == PlayerStatus::Ready && privileged
                },
                None => false,
            };
            if !ok {
                state.instances.add(inst);
                proof { lemma_put_back(old(state).instances@, iid); }
                return outs;
            }
        }
        let op = if other { pid } else { me };
        proof {
            if !other {
                assert(inst.has_player(me));
                assert(inst.player(me) == inst.players()[idx as int]);
            }
            assert(inst.has_player(op));
        }
        let rig = r.read_u16();
        let flags = r.read_u8() & FLAGS_KNOWN;
        let reset = flags & RESET != 0;
        let base = if reset {
            Transform::default()
        } else {
            let j = inst.find_player(op).unwrap();
            proof { assert(inst.player(op) == inst.players()[j as int]); }
            match inst.players[j].transforms.get(rig) {
                Some(t) => t,
                None => Transform::default(),
            }
        };
        let tr = read_transform(&mut r, flags, base);
        let active = flags & FIELD_FLAGS;
        let bytes = build_entity_part(iid, op, me, rig, active, &tr);
        let cids = collect_clients_seeing(&inst, op, Some(client_id));
        push_to_clients(&state.clients, &cids, 0, PacketType::Transform, &bytes, Delivery::Datagram, &mut outs);
        assert(outs_view(outs@) =~= Seq::<OutView>::empty() + pushes_to(cids@, state.clients@, 0, PacketType::Transform, bytes@, Delivery::Datagram));
        inst.set_player_transform(op, rig, active, tr, reset);
        state.instances.add(inst);
        outs
    } else if sub == BY_PATH && privileged {
        let path = r.read_string();
        match path {
            Some(p) => {
                if p.as_str().is_empty() {
                    state.instances.add(inst);
                    proof { lemma_put_back(old(state).instances@, iid); }
                    return outs;
                }
                let flags = r.read_u8() & FLAGS_KNOWN;
                let tr = read_transform(&mut r, flags, Transform::default());
                let bytes = build_by_path(iid, p.as_str(), me, flags & FIELD_FLAGS, &tr);
                let cids = collect_clients_except(&inst, Some(client_id));
                push_to_clients(&state.clients, &cids, 0, PacketType::Transform, &bytes, Delivery::Datagram, &mut outs);
                assert(outs_view(outs@) =~= Seq::<OutView>::empty() + pushes_to(cids@, state.clients@, 0, PacketType::Transform, bytes@, Delivery::Datagram));
                state.instances.add(inst);
                proof { lemma_put_back(old(state).instances@, iid); }
                outs
            },
            None => {
                state.instances.add(inst);
                proof { lemma_put_back(old(state).instances@, iid); }
                outs
            },
        }
    } else {
        state.instances.add(inst);
        proof { lemma_put_back(old(state).instances@, iid); }
        outs
    }
}

/// A forwarded transform never goes back to its sender: every datagram a
/// Transform request sends (EntityPart or ByPath) is a Transform addressed to
/// the client of another player of the instance.
pub proof fn lemma_transform_not_to_sender(state: AppState, client_id: u16, payload: Seq<u8>)
    ensures
        forall|i: int| 0 <= i < spec_transform(state, client_id, payload).0.len() ==> {
            let o = #[trigger] spec_transform(state, client_id, payload).0[i];
            &&& o.client_id != client_id
            &&& o.packet_type == PacketType::Transform
            &&& client_of_some(state.instances@[take_u8(payload).0].players(), o.client_id)
        },
{
    let (iid, r1) = take_u8(payload);
    let (sub, r2) = take_u8(r1);
    let inst = state.instances@[iid];
    let ps = inst.players();
    let outs = spec_transform(state, client_id, payload).0;
    if state.instances@.contains_key(iid) && inst.has_client(client_id)
        && inst.client_player(client_id).status == PlayerStatus::Ready {
        let me = inst.client_player(client_id).id;
        if sub == ENTITY_PART {
            let (pid, r3) = take_u16(r2);
            let other = pid != u16::MAX && pid != me;
            let op = if other { pid } else { me };
            let (rig, r4) = take_u16(r3);
            let (raw, r5) = take_u8(r4);
            let flags = raw & FLAGS_KNOWN;
            let reset = flags & RESET != 0;
            let base = if reset { Transform::spec_default() } else { stored_or_default(inst, op, rig) };
            let tr = read_fields(flags, base, r5);
            let cids = clients_seeing(ps, inst.groups(), op, Some(client_id));
            let bytes = entity_part_payload(iid, op, me, rig, flags & FIELD_FLAGS, tr);
            lemma_clients_seeing_members(ps, inst.groups(), op, Some(client_id));
            lemma_pushes_to_members(cids, state.clients@, 0, PacketType::Transform, bytes, Delivery::Datagram);
            assert forall|i: int| 0 <= i < outs.len() implies {
                let o = #[trigger] outs[i];
                &&& o.client_id != client_id
                &&& o.packet_type == PacketType::Transform
                &&& client_of_some(ps, o.client_id)
            } by {
                let o = outs[i];
                assert(outs == pushes_to(cids, state.clients@, 0, PacketType::Transform, bytes, Delivery::Datagram));
                let k = choose|k: int| 0 <= k < cids.len() && cids[k] == o.client_id;
                assert(Some(client_id) != Some(cids[k]) && client_of_some(ps, cids[k]));
            }
        } else if sub == BY_PATH && inst.client_player(client_id).spec_has_privilege() {
            let (path, r3) = take_string(r2);
            if let Some(p) = path {
                if p.len() > 0 {
                    let (raw, r4) = take_u8(r3);
                    let flags = raw & FLAGS_KNOWN;
                    let tr = read_fields(flags, Transform::spec_default(), r4);
                    let cids = clients_except(ps, Some(client_id));
                    let bytes = by_path_payload(iid, p, me, flags & FIELD_FLAGS, tr);
                    lemma_clients_except_members(ps, Some(client_id));
                    lemma_pushes_to_members(cids, state.clients@, 0, PacketType::Transform, bytes, Delivery::Datagram);
                    assert forall|i: int| 0 <= i < outs.len() implies {
                        let o = #[trigger] outs[i];
                        &&& o.client_id != client_id
                        &&& o.packet_type == PacketType::Transform
                        &&& client_of_some(ps, o.client_id)
                    } by {
                        let o = outs[i];
                        assert(outs == pushes_to(cids, state.clients@, 0, PacketType::Transform, bytes, Delivery::Datagram));
                        let k = choose|k: int| 0 <= k < cids.len() && cids[k] == o.client_id;
                        assert(Some(client_id) != Some(cids[k]) && client_of_some(ps, cids[k]));
                    }
                }
            }
        }
    }
}

} // verus!
