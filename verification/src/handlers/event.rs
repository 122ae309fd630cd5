//! Event: a named binary message from a ready player.
//!
//! Request: `[iid: u8][name: i64][data_len: u16][data: bytes](?[count: u8][targets: u16 × count])`.
//! Pushed as `[iid][player: u16][name: i64][data_len: u16][data]` to the
//! ready targets, or, without a target list, to every other ready player.
use vstd::prelude::*;

use super::context::{lemma_pushes_to_members, lemma_put_back, push_to_clients, pushes_to, select_clients, AppState};
use super::packet::{outs_view, Delivery, OutView, Outgoing, PacketType};
use crate::instance::instance::Instance;
use crate::player::{Player, PlayerStatus};
use crate::wire::{le16, le64, lemma_u16_roundtrip, take_bytes, take_i64, take_u16, take_u8, PacketReader, PacketWriter};

verus! {

/// The largest event payload forwarded.
pub const MAX_EVENT_DATA: u16 = 1024;

/// The clients of the ready players among the `count` ids read from `s`, in order.
pub open spec fn event_targets(inst: Instance, s: Seq<u8>, count: nat) -> Seq<u16>
    decreases count,
{
    if count == 0 {
        Seq::empty()
    } else {
        let (pid, rest) = take_u16(s);
        let head = if inst.has_player(pid) && inst.player(pid).status == PlayerStatus::Ready {
            seq![inst.player(pid).client_id]
        } else {
            Seq::empty()
        };
        head + event_targets(inst, rest, (count - 1) as nat)
    }
}

/// What an Event from `client_id` sends.
pub open spec fn spec_event(state: AppState, client_id: u16, payload: Seq<u8>) -> Seq<OutView> {
    let (iid, r1) = take_u8(payload);
    let inst = state.instances@[iid];
    if !state.instances@.contains_key(iid) || !inst.has_client(client_id)
        || inst.client_player(client_id).status != PlayerStatus::Ready {
        Seq::empty()
    } else {
        let me = inst.client_player(client_id).id;
        let (name, r2) = take_i64(r1);
        let (len, r3) = take_u16(r2);
        if len > MAX_EVENT_DATA {
            Seq::empty()
        } else {
            let (data, r4) = take_bytes(r3, len as nat);
            let targets = if r4.len() > 0 {
                let (count, r5) = take_u8(r4);
                event_targets(inst, r5, count as nat)
            } else {
                select_clients(inst.players(), |p: Player| p.id != me && p.status == PlayerStatus::Ready)
            };
            pushes_to(
                targets,
                state.clients@,
                0,
                PacketType::Event,
                seq![iid] + le16(me) + le64(name as u64) + le16(data.len() as u16) + data,
                Delivery::Push,
            )
        }
    }
}

fn read_targets(inst: &Instance, r: &mut PacketReader, count: u8) -> (cids: Vec<u16>)
    requires
        inst.wf(),
        old(r).wf(),
    ensures
        final(r).wf(),
        cids@ == event_targets(*inst, old(r)@, count as nat),
{
    let mut cids: Vec<u16> = Vec::new();
    let mut k: u8 = 0;
    while k < count
        invariant
            inst.wf(),
            r.wf(),
            k <= count,
            cids@ + event_targets(*inst, r@, (count - k) as nat) == event_targets(*inst, old(r)@, count as nat),
        decreases count - k,
    {
        let ghost s = r@;
        let ghost before = cids@;
        let pid = r.read_u16();
        match inst.find_player(pid) {
            Some(j) => {
                proof { assert(inst.player(pid) == inst.players()[j as int]); }
                if inst.players[j].status == PlayerStatus::Ready {
                    cids.push(inst.players[j].client_id);
                }
            },
            None => {},
        }
        proof {
            let head = if inst.has_player(pid) && inst.player(pid).status == PlayerStatus::Ready {
                seq![inst.player(pid).client_id]
            } else {
                Seq::<u16>::empty()
            };
            assert(cids@ =~= before + head);
            assert(event_targets(*inst, s, (count - k) as nat) == head + event_targets(*inst, r@, (count - k - 1) as nat));
            assert(cids@ + event_targets(*inst, r@, (count - k - 1) as nat) =~= before + event_targets(*inst, s, (count - k) as nat));
        }
        k = k + 1;
    }
    assert(cids@ =~= cids@ + event_targets(*inst, r@, 0));
    cids
}

fn collect_ready_others(inst: &Instance, me: u16) -> (cids: Vec<u16>)
    ensures
        cids@ == select_clients(inst.players(), |p: Player| p.id != me && p.status == PlayerStatus::Ready),
{
    let ps = inst.get_players();
    let mut cids: Vec<u16> = Vec::new();
    let mut i: usize = 0;
    while i < ps.len()
        invariant
            ps@ == inst.players(),
            i <= ps@.len(),
            cids@ == select_clients(ps@.take(i as int), |p: Player| p.id != me && p.status == PlayerStatus::Ready),
        decreases ps@.len() - i,
    {
        proof {
            assert(ps@.take(i + 1).drop_last() =~= ps@.take(i as int));
        }
        if ps[i].id != me && ps[i].status == PlayerStatus::Ready {
            cids.push(ps[i].client_id);
        }
        i = i + 1;
    }
    assert(ps@.take(ps@.len() as int) =~= ps@);
    cids
}

/// Handles an Event from client `client_id`.
pub fn handle(state: &mut AppState, client_id: u16, payload: Vec<u8>) -> (outs: Vec<Outgoing>)
    requires
        old(state).wf(),
    ensures
        final(state).wf(),
        final(state).clients@ == old(state).clients@,
        final(state).instances@ == old(state).instances@,
        final(state).config == old(state).config,
        outs_view(outs@) == spec_event(*old(state), client_id, payload@),
{
    let mut outs: Vec<Outgoing> = Vec::new();
    assert(outs_view(outs@) =~= Seq::<OutView>::empty());
    let mut r = PacketReader::new(payload);
    let iid = r.read_u8();
    let inst = match state.instances.remove(iid) {
        Some(i) => i,
        None => return outs,
    };
    let me = match inst.find_client(client_id) {
        Some(i) => {
            proof { assert(inst.players()[i as int] == inst.client_player(client_id)); }
            if inst.players[i].status == PlayerStatus::Ready {
                Some(inst.players[i].id)
            } else {
                None
            }
        },
        None => None,
    };
    if let Some(me) = me {
        let name = r.read_i64();
        let len = r.read_u16();
        if len <= MAX_EVENT_DATA {
            let data = r.read_bytes(len as usize);
            let targets = if r.remaining() > 0 {
                let count = r.read_u8();
                read_targets(&inst, &mut r, count)
            } else {
                collect_ready_others(&inst, me)
            };
            let mut w = PacketWriter::new();
            w.write_u8(iid);
            w.write_u16(me);
            w.write_i64(name);
            w.write_u16(data.len() as u16);
            w.write_bytes(data.as_slice());
            let ghost v = w@;
            assert(v =~= seq![iid] + le16(me) + le64(name as u64) + le16(data@.len() as u16) + data@);
            let bytes = w.finish();
            push_to_clients(&state.clients, &targets, 0, PacketType::Event, &bytes, Delivery::Push, &mut outs);
            assert(outs_view(outs@) =~= Seq::<OutView>::empty() + pushes_to(targets@, state.clients@, 0, PacketType::Event, bytes@, Delivery::Push));
        }
    }
    state.instances.add(inst);
    proof { lemma_put_back(old(state).instances@, iid); }
    outs
}

/// A forwarded Event names its sender: each payload starts with the
/// instance id and then, as a `u16`, the id of the sender's player in that
/// instance (not its client id).
pub proof fn lemma_event_names_sender(state: AppState, client_id: u16, payload: Seq<u8>)
    ensures
        forall|i: int| 0 <= i < spec_event(state, client_id, payload).len() ==> {
            let o = #[trigger] spec_event(state, client_id, payload)[i];
            let iid = take_u8(payload).0;
            &&& state.instances@.contains_key(iid)
            &&& state.instances@[iid].has_client(client_id)
            &&& o.packet_type == PacketType::Event
            &&& o.payload.len() > 0 && o.payload[0] == iid
            &&& take_u16(o.payload.skip(1)).0 == state.instances@[iid].client_player(client_id).id
        },
{
    let (iid, r1) = take_u8(payload);
    let inst = state.instances@[iid];
    let outs = spec_event(state, client_id, payload);
    if state.instances@.contains_key(iid) && inst.has_client(client_id)
        && inst.client_player(client_id).status == PlayerStatus::Ready {
        let me = inst.client_player(client_id).id;
        let (name, r2) = take_i64(r1);
        let (len, r3) = take_u16(r2);
        if len <= MAX_EVENT_DATA {
            let (data, r4) = take_bytes(r3, len as nat);
            let targets = if r4.len() > 0 {
                let (count, r5) = take_u8(r4);
                event_targets(inst, r5, count as nat)
            } else {
                select_clients(inst.players(), |p: Player| p.id != me && p.status == PlayerStatus::Ready)
            };
            let rest = le64(name as u64) + le16(data.len() as u16) + data;
            let bytes = seq![iid] + le16(me) + le64(name as u64) + le16(data.len() as u16) + data;
            assert(outs == pushes_to(targets, state.clients@, 0, PacketType::Event, bytes, Delivery::Push));
            lemma_pushes_to_members(targets, state.clients@, 0, PacketType::Event, bytes, Delivery::Push);
            assert(bytes =~= seq![iid] + (le16(me) + rest));
            assert(bytes.skip(1) =~= le16(me) + rest);
            lemma_u16_roundtrip(me, rest);
        }
    }
}

} // verus!
