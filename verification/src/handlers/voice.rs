//! Voice: `[iid: u8][sub_type: u8][channel: u32][level: u8][sample: bytes…]`
//! from a ready player, pushed to every other player's client as
//! `[iid][sub_type][player: u16][channel][level][sample]`.
use vstd::prelude::*;

use super::context::{clients_except, collect_clients_except, lemma_put_back, push_to_clients, pushes_to, AppState};
use super::packet::{outs_view, Delivery, OutView, Outgoing, PacketType};
use crate::player::PlayerStatus;
use crate::wire::{le16, le32, take_u32, take_u8, PacketReader, PacketWriter};

verus! {

/// What a Voice packet from `client_id` sends.
pub open spec fn spec_voice(state: AppState, client_id: u16, payload: Seq<u8>) -> Seq<OutView> {
    let (iid, r1) = take_u8(payload);
    let inst = state.instances@[iid];
    if !state.instances@.contains_key(iid) || !inst.has_client(client_id)
        || inst.client_player(client_id).status != PlayerStatus::Ready {
        Seq::empty()
    } else {
        let me = inst.client_player(client_id).id;
        let (sub, r2) = take_u8(r1);
        let (channel, r3) = take_u32(r2);
        let (level, sample) = take_u8(r3);
        pushes_to(
            clients_except(inst.players(), Some(client_id)),
            state.clients@,
            0,
            PacketType::Voice,
            seq![iid, sub] + le16(me) + le32(channel) + seq![level] + sample,
            Delivery::Push,
        )
    }
}

/// Handles a Voice packet from client `client_id`.
pub fn handle(state: &mut AppState, client_id: u16, payload: Vec<u8>) -> (outs: Vec<Outgoing>)
    requires
        old(state).wf(),
    ensures
        final(state).wf(),
        final(state).clients@ == old(state).clients@,
        final(state).instances@ == old(state).instances@,
        final(state).config == old(state).config,
        outs_view(outs@) == spec_voice(*old(state), client_id, payload@),
{
    let mut outs: Vec<Outgoing> = Vec::new();
    assert(outs_view(outs@) =~= Seq::<OutView>::empty());
    let mut r = PacketReader::new(payload);
    let iid = r.read_u8();
    let inst = match state.instances.remove(iid) {
        Some(i) => i,
        None => return outs,
    };
    let me = match inst.find_client(client_id) {
        Some(i) => {
            proof { assert(inst.players()[i as int] == inst.client_player(client_id)); }
            if inst.players[i].status == PlayerStatus::Ready {
                Some(inst.players[i].id)
            } else {
                None
            }
        },
        None => None,
    };
    if let Some(me) = me {
        let sub = r.read_u8();
        let channel = r.read_u32();
        let level = r.read_u8();
        let n = r.remaining();
        let ghost rest = r@;
        let sample = r.read_bytes(n);
        let mut w = PacketWriter::new();
        w.write_u8(iid);
        w.write_u8(sub);
        w.write_u16(me);
        w.write_u32(channel);
        w.write_u8(level);
        w.write_bytes(sample.as_slice());
        let ghost v = w@;
        assert(v =~= seq![iid, sub] + le16(me) + le32(channel) + seq![level] + rest);
        let bytes = w.finish();
        let cids = collect_clients_except(&inst, Some(client_id));
        push_to_clients(&state.clients, &cids, 0, PacketType::Voice, &bytes, Delivery::Push, &mut outs);
        assert(outs_view(outs@) =~= Seq::<OutView>::empty() + pushes_to(cids@, state.clients@, 0, PacketType::Voice, bytes@, Delivery::Push));
    }
    state.instances.add(inst);
    proof { lemma_put_back(old(state).instances@, iid); }
    outs
}

} // verus!
