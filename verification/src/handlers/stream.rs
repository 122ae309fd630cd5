//! Stream: voice samples and hearing control, multiplexed in one packet type.
//!
//! Sample: `[iid][0][channel: u32][level: u8](?[group: u16])[frame: i32]
//! [timestamp: f64][sample: bytes…]`, forwarded as `[iid][0][player: u16]
//! [channel][level](?[group])[frame][timestamp][sample]` to the ready players
//! allowed to hear the sender on that channel (everyone, while no permission
//! is recorded).
//!
//! Control: `[iid][1][listener: u16][speaker: u16][flags: u8]`; bit 0 grants,
//! otherwise revokes, hearing on the wildcard channel 0; the packet is echoed
//! back to the sender.
use vstd::prelude::*;

use super::context::{lemma_put_back, push_to_clients, pushes_to, select_clients, AppState};
use super::packet::{out, outs_view, Delivery, OutView, Outgoing, PacketType};
use crate::instance::instance::Instance;
use crate::player::{Player, PlayerStatus};
use crate::wire::{le16, le32, le64, take_i32, take_u16, take_u32, take_u64, take_u8, PacketReader, PacketWriter};

verus! {

/// Sub-types within a Stream packet.
#[derive(Debug, Clone, Copy, PartialEq, Eq, Structural)]
pub enum StreamSubType {
    /// An Opus audio sample.
    Sample,
    /// A hearing permission change.
    Control,
}

impl StreamSubType {
    /// The sub-type with wire code `v`; the code itself when unknown.
    pub fn try_from(v: u8) -> (r: Result<StreamSubType, u8>)
        ensures
            r == (if v == SAMPLE {
                Ok(StreamSubType::Sample)
            } else if v == CONTROL {
                Ok(StreamSubType::Control)
            } else {
                Err::<StreamSubType, u8>(v)
            }),
    {
        if v == SAMPLE {
            Ok(StreamSubType::Sample)
        } else if v == CONTROL {
            Ok(StreamSubType::Control)
        } else {
            Err(v)
        }
    }
}

/// Sub-type: an audio sample.
pub const SAMPLE: u8 = 0x00;
/// Sub-type: a hearing permission change.
pub const CONTROL: u8 = 0x01;
/// Level flags: distance mode (0 normal, 1 whisper, 2 broadcast).
pub const DISTANCE_MASK: u8 = 0x03;
/// Level flags: a group id follows.
pub const GROUP_BIT: u8 = 0x04;
/// Control flags: grant hearing.
pub const CAN_HEAR_BIT: u8 = 0x01;
/// The channel control packets apply to.
pub const WILDCARD_CHANNEL: u32 = 0;

/// The clients of the ready players (not of client `cid`) that may hear
/// `speaker` on `channel`.
pub open spec fn hearers(ps: Seq<Player>, hearing: Set<(u16, u16, u32)>, speaker: u16, channel: u32, cid: u16) -> Seq<u16> {
    select_clients(
        ps,
        |p: Player| p.client_id != cid && p.status == PlayerStatus::Ready && (hearing == Set::<(u16, u16, u32)>::empty()
            || hearing.contains((p.id, speaker, channel))),
    )
}

/// The forwarded sample of `speaker`, from the fields after the sub-type `s`
/// (`None` when no sample bytes remain).
pub open spec fn sample_payload(iid: u8, speaker: u16, s: Seq<u8>) -> Option<Seq<u8>> {
    let (channel, s1) = take_u32(s);
    let (level, s2) = take_u8(s1);
    let (group, s3) = if level & GROUP_BIT != 0 { take_u16(s2) } else { (0u16, s2) };
    let (frame, s4) = take_i32(s3);
    let (timestamp, sample) = take_u64(s4);
    if sample.len() == 0 {
        None
    } else {
        Some(seq![iid, SAMPLE] + le16(speaker) + le32(channel) + seq![level] + (if level & GROUP_BIT != 0 {
            le16(group)
        } else {
            Seq::empty()
        }) + le32(frame as u32) + le64(timestamp) + sample)
    }
}

/// The echo of a hearing control: `[iid][1][listener][speaker][control_flags]`.
pub open spec fn control_echo(iid: u8, listener: u16, speaker: u16, cf: u8) -> Seq<u8> {
    seq![iid, CONTROL] + le16(listener) + le16(speaker) + seq![cf]
}

/// What a Stream datagram from `client_id` sends, and the hearing change it
/// makes (listener, speaker, grant).
pub open spec fn spec_stream(state: AppState, client_id: u16, payload: Seq<u8>) -> (Seq<OutView>, Option<(u16, u16, bool)>) {
    let (iid, r1) = take_u8(payload);
    let (sub, r2) = take_u8(r1);
    let inst = state.instances@[iid];
    if !state.instances@.contains_key(iid) {
        (Seq::empty(), None)
    } else if sub == SAMPLE {
        if !inst.has_client(client_id) || inst.client_player(client_id).status != PlayerStatus::Ready {
            (Seq::empty(), None)
        } else {
            let me = inst.client_player(client_id).id;
            let channel = take_u32(r2).0;
            match sample_payload(iid, me, r2) {
                Some(p) => (
                    pushes_to(hearers(inst.players(), inst.hearing(), me, channel, client_id), state.clients@, 0, PacketType::Stream, p, Delivery::Push),
                    None,
                ),
                None => (Seq::empty(), None),
            }
        }
    } else if sub == CONTROL {
        let (listener, r3) = take_u16(r2);
        let (speaker, r4) = take_u16(r3);
        let cf = take_u8(r4).0;
        (
            seq![out(client_id, 0, PacketType::Stream, control_echo(iid, listener, speaker, cf), Delivery::Datagram)],
            Some((listener, speaker, cf & CAN_HEAR_BIT != 0)),
        )
    } else {
        (Seq::empty(), None)
    }
}

fn collect_hearers(inst: &Instance, speaker: u16, channel: u32, cid: u16) -> (cids: Vec<u16>)
    requires
        inst.wf(),
    ensures
        cids@ == hearers(inst.players(), inst.hearing(), speaker, channel, cid),
{
    let everyone = inst.hearing_is_empty();
    let ps = inst.get_players();
    let mut cids: Vec<u16> = Vec::new();
    let mut i: usize = 0;
    while i < ps.len()
        invariant
            inst.wf(),
            ps@ == inst.players(),
            everyone == (inst.hearing() == Set::<(u16, u16, u32)>::empty()),
            i <= ps@.len(),
            cids@ == hearers(ps@.take(i as int), inst.hearing(), speaker, channel, cid),
        decreases ps@.len() - i,
    {
        proof {
            assert(ps@.take(i + 1).drop_last() =~= ps@.take(i as int));
        }
        let p = &ps[i];
        if p.client_id != cid && p.status == PlayerStatus::Ready && (everyone || inst.hears(p.id, speaker, channel)) {
            cids.push(p.client_id);
        }
        i = i + 1;
    }
    assert(ps@.take(ps@.len() as int) =~= ps@);
    cids
}

/// Reads the sample fields after the sub-type and builds the forwarded sample.
fn build_sample(r: &mut PacketReader, iid: u8, speaker: u16) -> (res: (Option<Vec<u8>>, u32))
    requires
        old(r).wf(),
    ensures
        final(r).wf(),
        res.1 == take_u32(old(r)@).0,
        match res.0 {
            Some(b) => sample_payload(iid, speaker, old(r)@) == Some(b@),
            None => sample_payload(iid, speaker, old(r)@) is None,
        },
{
    let ghost s = r@;
    let channel = r.read_u32();
    let level = r.read_u8();
    let group = if level & GROUP_BIT != 0 {
        r.read_u16()
    } else {
        0
    };
    let frame = r.read_i32();
    let timestamp = r.read_u64();
    let n = r.remaining();
    if n == 0 {
        return (None, channel);
    }
    let ghost rest = r@;
    let sample = r.read_bytes(n);
    assert(sample@ == rest);
    let mut w = PacketWriter::new();
    w.write_u8(iid);
    w.write_u8(SAMPLE);
    w.write_u16(speaker);
    w.write_u32(channel);
    w.write_u8(level);
    let ghost w0 = w@;
    if level & GROUP_BIT != 0 {
        w.write_u16(group);
    }
    let ghost w1 = w@;
    assert(w1 =~= w0 + (if level & GROUP_BIT != 0 { le16(group) } else { Seq::empty() }));
    w.write_i32(frame);
    w.write_u64(timestamp);
    w.write_bytes(sample.as_slice());
    let ghost v = w@;
    assert(v =~= seq![iid, SAMPLE] + le16(speaker) + le32(channel) + seq![level] + (if level & GROUP_BIT != 0 {
        le16(group)
    } else {
        Seq::empty()
    }) + le32(frame as u32) + le64(timestamp) + rest);
    (Some(w.finish()), channel)
}

/// Handles a Stream datagram from client `client_id`.
pub fn handle(state: &mut AppState, client_id: u16, payload: Vec<u8>) -> (outs: Vec<Outgoing>)
    requires
        old(state).wf(),
    ensures
        final(state).wf(),
        final(state).clients@ == old(state).clients@,
        final(state).config == old(state).config,
        ({
            let (sent, change) = spec_stream(*old(state), client_id, payload@);
            let iid = take_u8(payload@).0;
            &&& outs_view(outs@) == sent
            &&& match change {
                None => final(state).instances@ == old(state).instances@,
                Some((listener, speaker, grant)) => {
                    let before = old(state).instances@[iid];
                    let after = final(state).instances@[iid];
                    &&& final(state).instances@.dom() == old(state).instances@.dom()
                    &&& forall|k: u8| k != iid && #[trigger] old(state).instances@.contains_key(k)
                        ==> final(state).instances@[k] == old(state).instances@[k]
                    &&& after.hearing() == if grant {
                        before.hearing().insert((listener, speaker, WILDCARD_CHANNEL))
                    } else {
                        before.hearing().remove((listener, speaker, WILDCARD_CHANNEL))
                    }
                    &&& after.players() == before.players()
                    &&& after.groups() == before.groups()
                    &&& after.flags == before.flags
                    &&& after.tps == before.tps
                    &&& after.threshold == before.threshold
                    &&& after.capacity == before.capacity
                    &&& after.password_hash == before.password_hash
                    &&& after.effective_tps == before.effective_tps
                    &&& after.effective_threshold == before.effective_threshold
                },
            }
        }),
{
    let mut outs: Vec<Outgoing> = Vec::new();
    assert(outs_view(outs@) =~= Seq::<OutView>::empty());
    let mut r = PacketReader::new(payload);
    let iid = r.read_u8();
    let mut inst = match state.instances.remove(iid) {
        Some(i) => i,
        None => return outs,
    };
    let sub = r.read_u8();
    if sub == SAMPLE {
        let idx = match inst.find_client(client_id) {
            Some(i) => i,
            None => {
                state.instances.add(inst);
                proof { lemma_put_back(old(state).instances@, iid); }
                return outs;
            },
        };
        proof {
            assert(inst.players()[idx as int] == inst.client_player(client_id));
        }
        if inst.players[idx].status != PlayerStatus::Ready {
            state.instances.add(inst);
            proof { lemma_put_back(old(state).instances@, iid); }
            return outs;
        }
        let me = inst.players[idx].id;
        let (sample, channel) = build_sample(&mut r, iid, me);
        match sample {
            Some(bytes) => {
                let cids = collect_hearers(&inst, me, channel, client_id);
                push_to_clients(&state.clients, &cids, 0, PacketType::Stream, &bytes, Delivery::Push, &mut outs);
                assert(outs_view(outs@) =~= Seq::<OutView>::empty() + pushes_to(cids@, state.clients@, 0, PacketType::Stream, bytes@, Delivery::Push));
            },
            None => {},
        }
        state.instances.add(inst);
        proof { lemma_put_back(old(state).instances@, iid); }
        outs
    } else if sub == CONTROL {
        let listener = r.read_u16();
        let speaker = r.read_u16();
        let cf = r.read_u8();
        inst.set_hearing(listener, speaker, WILDCARD_CHANNEL, cf & CAN_HEAR_BIT != 0);
        state.instances.add(inst);
        let mut w = PacketWriter::new();
        w.write_u8(iid);
        w.write_u8(CONTROL);
        w.write_u16(listener);
        w.write_u16(speaker);
        w.write_u8(cf);
        let ghost v = w@;
        assert(v =~= control_echo(iid, listener, speaker, cf));
        outs.push(Outgoing::new(client_id, 0, PacketType::Stream, w.finish(), Delivery::Datagram));
        assert(outs_view(outs@) =~= seq![
            out(client_id, 0, PacketType::Stream, control_echo(iid, listener, speaker, cf), Delivery::Datagram),
        ]);
        outs
    } else {
        state.instances.add(inst);
        proof { lemma_put_back(old(state).instances@, iid); }
        outs
    }
}

} // verus!
