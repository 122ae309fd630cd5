//! Properties: a per-player dictionary of key/value blobs.
//!
//! Request: `[iid: u8][pid: u16][count: u8]` then `count × ([key: i32][len: u8][bytes: len])`.
//! Pushed as `[iid][entity: u16][broadcaster: u16][count: u8][entries…]` to
//! every other player, with each key once (a later entry for a key replaces
//! the earlier one). A count of 0 pushes the empty dictionary to the others and
//! sends nothing back.
use vstd::prelude::*;

use super::context::{clients_except, collect_clients_except, lemma_put_back, push_to_clients, pushes_to, AppState};
use super::packet::{out, outs_view, Delivery, OutView, Outgoing, PacketType};
use crate::instance::instance::Instance;
use crate::player::PlayerStatus;
use crate::wire::{le16, le32, take_bytes, take_i32, take_u16, take_u8, PacketReader, PacketWriter};

verus! {

/// The `count` entries read from `s`, in order.
pub open spec fn parse_props(s: Seq<u8>, count: nat) -> Seq<(i32, Seq<u8>)>
    decreases count,
{
    if count == 0 {
        Seq::empty()
    } else {
        let (key, r1) = take_i32(s);
        let (len, r2) = take_u8(r1);
        let (value, r3) = take_bytes(r2, len as nat);
        seq![(key, value)] + parse_props(r3, (count - 1) as nat)
    }
}

/// Whether `i` is the position of key `k` in `d`.
pub open spec fn key_at(d: Seq<(i32, Seq<u8>)>, k: i32, i: int) -> bool {
    0 <= i < d.len() && d[i].0 == k && forall|j: int| 0 <= j < i ==> #[trigger] d[j].0 != k
}

/// `d` with `k` set to `v`: in place when the key is there, else appended.
#[verifier::opaque]
pub open spec fn dict_insert(d: Seq<(i32, Seq<u8>)>, k: i32, v: Seq<u8>) -> Seq<(i32, Seq<u8>)> {
    if exists|i: int| key_at(d, k, i) {
        d.update(choose|i: int| key_at(d, k, i), (k, v))
    } else {
        d.push((k, v))
    }
}

/// The dictionary the entries build, keys in order of first appearance.
pub open spec fn build_dict(entries: Seq<(i32, Seq<u8>)>) -> Seq<(i32, Seq<u8>)>
    decreases entries.len(),
{
    if entries.len() == 0 {
        Seq::empty()
    } else {
        dict_insert(build_dict(entries.drop_last()), entries.last().0, entries.last().1)
    }
}

/// The bytes of dictionary entries.
pub open spec fn dict_bytes(d: Seq<(i32, Seq<u8>)>) -> Seq<u8>
    decreases d.len(),
{
    if d.len() == 0 {
        Seq::empty()
    } else {
        dict_bytes(d.drop_last()) + le32(d.last().0 as u32) + seq![d.last().1.len() as u8] + d.last().1
    }
}

/// The pushed dictionary.
pub open spec fn props_payload(iid: u8, entity: u16, broadcaster: u16, d: Seq<(i32, Seq<u8>)>) -> Seq<u8> {
    seq![iid] + le16(entity) + le16(broadcaster) + seq![d.len() as u8] + dict_bytes(d)
}

/// The player a request from a ready sender `me` acts on (its own, or `pid`
/// when a privileged sender names another ready player).
pub open spec fn acted_on(inst: Instance, me_privileged: bool, me: u16, pid: u16) -> Option<u16> {
    let other = pid != u16::MAX && pid != me;
    if !other {
        Some(me)
    } else if inst.has_player(pid) && inst.player(pid).status == PlayerStatus::Ready && me_privileged {
        Some(pid)
    } else {
        None
    }
}

/// What a Properties request from `client_id` sends: the dictionary it
/// carries (empty when the count is 0) pushed to every other player's client,
/// nothing back to the sender.
pub open spec fn spec_properties(state: AppState, client_id: u16, payload: Seq<u8>) -> Seq<OutView> {
    let (iid, r1) = take_u8(payload);
    let inst = state.instances@[iid];
    if !state.instances@.contains_key(iid) || !inst.has_client(client_id)
        || inst.client_player(client_id).status != PlayerStatus::Ready {
        Seq::empty()
    } else {
        let me = inst.client_player(client_id);
        let (pid, r2) = take_u16(r1);
        match acted_on(inst, me.spec_has_privilege(), me.id, pid) {
            None => Seq::empty(),
            Some(op) => {
                let (count, r3) = take_u8(r2);
                pushes_to(
                    clients_except(inst.players(), Some(client_id)),
                    state.clients@,
                    0,
                    PacketType::Properties,
                    props_payload(iid, op, me.id, build_dict(parse_props(r3, count as nat))),
                    Delivery::Push,
                )
            },
        }
    }
}

/// The dictionary as values.
pub open spec fn dict_view(d: Seq<(i32, Vec<u8>)>) -> Seq<(i32, Seq<u8>)> {
    d.map_values(|e: (i32, Vec<u8>)| (e.0, e.1@))
}

fn dict_set(d: &mut Vec<(i32, Vec<u8>)>, k: i32, v: Vec<u8>)
    requires
        v@.len() <= 255,
        forall|i: int| 0 <= i < old(d)@.len() ==> #[trigger] old(d)@[i].1@.len() <= 255,
    ensures
        dict_view(final(d)@) == dict_insert(dict_view(old(d)@), k, v@),
        final(d)@.len() <= old(d)@.len() + 1,
        forall|i: int| 0 <= i < final(d)@.len() ==> #[trigger] final(d)@[i].1@.len() <= 255,
{
    let ghost dv = dict_view(d@);
    let mut i: usize = 0;
    while i < d.len()
        invariant
            dv == dict_view(d@),
            d@ == old(d)@,
            i <= d@.len(),
            v@.len() <= 255,
            forall|j: int| 0 <= j < old(d)@.len() ==> #[trigger] old(d)@[j].1@.len() <= 255,
            forall|j: int| 0 <= j < i ==> #[trigger] dv[j].0 != k,
        decreases d@.len() - i,
    {
        assert(dv[i as int].0 == d@[i as int].0);
        if d[i].0 == k {
            proof {
                reveal(dict_insert);
                assert(key_at(dv, k, i as int));
                let c = choose|c: int| key_at(dv, k, c);
                assert(c == i) by {
                    if c < i {
                        assert(dv[c].0 != k);
                    } else if c > i {
                        assert(dv[i as int].0 != k);
                    }
                }
            }
            let ghost before = d@;
            d.set(i, (k, v));
            assert(dict_view(d@) =~= dv.update(i as int, (k, v@)));
            proof { reveal(dict_insert); }
            return;
        }
        i = i + 1;
    }
    proof {
        reveal(dict_insert);
        assert forall|c: int| !key_at(dv, k, c) by {
            if 0 <= c < dv.len() {
                assert(dv[c].0 != k);
            }
        }
    }
    d.push((k, v));
    assert(dict_view(d@) =~= dv.push((k, v@)));
    proof { reveal(dict_insert); }
}

/// Reads `count` entries and builds their dictionary.
fn read_dict(r: &mut PacketReader, count: u8) -> (d: Vec<(i32, Vec<u8>)>)
    requires
        old(r).wf(),
    ensures
        final(r).wf(),
        dict_view(d@) == build_dict(parse_props(old(r)@, count as nat)),
        d@.len() <= count,
        forall|i: int| 0 <= i < d@.len() ==> #[trigger] d@[i].1@.len() <= 255,
{
    let mut d: Vec<(i32, Vec<u8>)> = Vec::new();
    let ghost mut parsed: Seq<(i32, Seq<u8>)> = Seq::empty();
    let mut k: u8 = 0;
    assert(dict_view(d@) =~= build_dict(parsed));
    assert(parsed + parse_props(r@, count as nat) =~= parse_props(old(r)@, count as nat));
    while k < count
        invariant
            r.wf(),
            k <= count,
            dict_view(d@) == build_dict(parsed),
            parsed + parse_props(r@, (count - k) as nat) == parse_props(old(r)@, count as nat),
            d@.len() <= k,
            forall|i: int| 0 <= i < d@.len() ==> #[trigger] d@[i].1@.len() <= 255,
        decreases count - k,
    {
        let ghost s = r@;
        let key = r.read_i32();
        let len = r.read_u8();
        let value = r.read_bytes(len as usize);
        let ghost e = (key, value@);
        proof {
            assert(parse_props(s, (count - k) as nat) == seq![e] + parse_props(r@, (count - k - 1) as nat));
            assert(parsed.push(e) + parse_props(r@, (count - k - 1) as nat) =~= parsed + parse_props(s, (count - k) as nat));
            assert(parsed.push(e).drop_last() =~= parsed);
        }
        dict_set(&mut d, key, value);
        proof {
            parsed = parsed.push(e);
        }
        k = k + 1;
    }
    assert(parsed =~= parsed + parse_props(r@, 0));
    d
}

/// Builds the pushed dictionary.
pub fn build_properties(iid: u8, entity: u16, broadcaster: u16, d: &Vec<(i32, Vec<u8>)>) -> (bytes: Vec<u8>)
    requires
        d@.len() <= 255,
        forall|i: int| 0 <= i < d@.len() ==> #[trigger] d@[i].1@.len() <= 255,
    ensures
        bytes@ == props_payload(iid, entity, broadcaster, dict_view(d@)),
{
    let mut w = PacketWriter::new();
    w.write_u8(iid);
    w.write_u16(entity);
    w.write_u16(broadcaster);
    w.write_u8(d.len() as u8);
    let ghost w0 = w@;
    let mut i: usize = 0;
    while i < d.len()
        invariant
            i <= d@.len(),
            w@ == w0 + dict_bytes(dict_view(d@.take(i as int))),
        decreases d@.len() - i,
    {
        let e = &d[i];
        w.write_i32(e.0);
        w.write_u8(e.1.len() as u8);
        w.write_bytes(e.1.as_slice());
        proof {
            assert(dict_view(d@.take(i + 1)).drop_last() =~= dict_view(d@.take(i as int)));
            assert(w@ =~= w0 + dict_bytes(dict_view(d@.take(i + 1))));
        }
        i = i + 1;
    }
    assert(d@.take(d@.len() as int) =~= d@);
    let ghost v = w@;
    assert(v =~= props_payload(iid, entity, broadcaster, dict_view(d@)));
    w.finish()
}

/// Handles a Properties request from client `client_id`.
pub fn handle(state: &mut AppState, client_id: u16, payload: Vec<u8>) -> (outs: Vec<Outgoing>)
    requires
        old(state).wf(),
    ensures
        final(state).wf(),
        final(state).clients@ == old(state).clients@,
        final(state).instances@ == old(state).instances@,
        final(state).config == old(state).config,
        outs_view(outs@) == spec_properties(*old(state), client_id, payload@),
{
    let mut outs: Vec<Outgoing> = Vec::new();
    assert(outs_view(outs@) =~= Seq::<OutView>::empty());
    let mut r = PacketReader::new(payload);
    let iid = r.read_u8();
    let inst = match state.instances.remove(iid) {
        Some(i) => i,
        None => return outs,
    };
    let sender = match inst.find_client(client_id) {
        Some(i) => {
            proof { assert(inst.players()[i as int] == inst.client_player(client_id)); }
            if inst.players[i].status == PlayerStatus::Ready {
                Some((inst.players[i].id, inst.players[i].has_privilege()))
            } else {
                None
            }
        },
        None => None,
    };
    if let Some((me, privileged)) = sender {
        let pid = r.read_u16();
        let other = pid != u16::MAX && pid != me;
        let op = if !other {
            Some(me)
        } else {
            match inst.find_player(pid) {
                Some(j) => {
                    proof { assert(inst.player(pid) == inst.players()[j as int]); }
                    if inst.players[j].status == PlayerStatus::Ready && privileged {
                        Some(pid)
                    } else {
                        None
                    }
                },
                None => None,
            }
        };
        if let Some(op) = op {
            let count = r.read_u8();
            let d = read_dict(&mut r, count);
            let bytes = build_properties(iid, op, me, &d);
            let cids = collect_clients_except(&inst, Some(client_id));
            push_to_clients(&state.clients, &cids, 0, PacketType::Properties, &bytes, Delivery::Push, &mut outs);
            assert(outs_view(outs@) =~= Seq::<OutView>::empty() + pushes_to(cids@, state.clients@, 0, PacketType::Properties, bytes@, Delivery::Push));
        }
    }
    state.instances.add(inst);
    proof { lemma_put_back(old(state).instances@, iid); }
    outs
}

/// Whether no key occurs twice in `d`.
pub open spec fn unique_keys(d: Seq<(i32, Seq<u8>)>) -> bool {
    forall|a: int, b: int| 0 <= a < d.len() && 0 <= b < d.len() && a != b ==> #[trigger] d[a].0 != #[trigger] d[b].0
}

proof fn lemma_insert_keeps(d: Seq<(i32, Seq<u8>)>, k: i32, v: Seq<u8>)
    requires
        unique_keys(d),
    ensures
        unique_keys(dict_insert(d, k, v)),
        dict_insert(d, k, v).contains((k, v)),
        forall|e: (i32, Seq<u8>)| #![trigger dict_insert(d, k, v).contains(e)] e.0 != k && d.contains(e) ==> dict_insert(d, k, v).contains(e),
        forall|e: (i32, Seq<u8>)| #![trigger dict_insert(d, k, v).contains(e)] dict_insert(d, k, v).contains(e) ==> e.0 == k || d.contains(e),
{
    reveal(dict_insert);
    let r = dict_insert(d, k, v);
    if exists|i: int| key_at(d, k, i) {
        let i = choose|i: int| key_at(d, k, i);
        assert(r == d.update(i, (k, v)));
        assert(r[i] == (k, v));
        assert forall|a: int, b: int| 0 <= a < r.len() && 0 <= b < r.len() && a != b implies #[trigger] r[a].0 != #[trigger] r[b].0 by {
            if a != i && b != i {
                assert(d[a].0 != d[b].0);
            } else if a == i {
                assert(d[i].0 != d[b].0);
            } else {
                assert(d[a].0 != d[i].0);
            }
        }
        assert forall|e: (i32, Seq<u8>)| e.0 != k && d.contains(e) implies r.contains(e) by {
            let j = choose|j: int| 0 <= j < d.len() && d[j] == e;
            assert(j != i);
            assert(r[j] == e);
        }
        assert forall|e: (i32, Seq<u8>)| r.contains(e) implies e.0 == k || d.contains(e) by {
            let j = choose|j: int| 0 <= j < r.len() && r[j] == e;
            if j != i {
                assert(d[j] == e);
            }
        }
    } else {
        assert(r == d.push((k, v)));
        assert(r[d.len() as int] == (k, v));
        assert forall|a: int, b: int| 0 <= a < r.len() && 0 <= b < r.len() && a != b implies #[trigger] r[a].0 != #[trigger] r[b].0 by {
            if a == d.len() {
                if d[b].0 == k {
                    let f = choose|f: int| 0 <= f <= b && d[f].0 == k && forall|g: int| 0 <= g < f ==> #[trigger] d[g].0 != k;
                    assert(key_at(d, k, f)) by {
                        lemma_first_key(d, k, b);
                    }
                }
            } else if b == d.len() {
                if d[a].0 == k {
                    assert(exists|f: int| key_at(d, k, f)) by {
                        lemma_first_key(d, k, a);
                    }
                }
            } else {
                assert(d[a].0 != d[b].0);
            }
        }
        assert forall|e: (i32, Seq<u8>)| e.0 != k && d.contains(e) implies r.contains(e) by {
            let j = choose|j: int| 0 <= j < d.len() && d[j] == e;
            assert(r[j] == e);
        }
        assert forall|e: (i32, Seq<u8>)| r.contains(e) implies e.0 == k || d.contains(e) by {
            let j = choose|j: int| 0 <= j < r.len() && r[j] == e;
            if j < d.len() {
                assert(d[j] == e);
            }
        }
    }
}

proof fn lemma_first_key(d: Seq<(i32, Seq<u8>)>, k: i32, b: int)
    requires
        0 <= b < d.len(),
        d[b].0 == k,
    ensures
        exists|f: int| key_at(d, k, f),
    decreases b,
{
    if forall|g: int| 0 <= g < b ==> #[trigger] d[g].0 != k {
        assert(key_at(d, k, b));
    } else {
        let g = choose|g: int| 0 <= g < b && #[trigger] d[g].0 != k == false;
        lemma_first_key(d, k, g);
    }
}

/// A Properties dictionary holds each key once, with the value of its last
/// entry.
pub proof fn lemma_dict_last_wins(entries: Seq<(i32, Seq<u8>)>)
    ensures
        unique_keys(build_dict(entries)),
        forall|i: int| 0 <= i < entries.len() && (forall|j: int| i < j < entries.len() ==> #[trigger] entries[j].0 != entries[i].0)
            ==> build_dict(entries).contains(#[trigger] entries[i]),
    decreases entries.len(),
{
    if entries.len() > 0 {
        let prev = entries.drop_last();
        let last = entries.last();
        lemma_dict_last_wins(prev);
        lemma_insert_keeps(build_dict(prev), last.0, last.1);
        assert forall|i: int| 0 <= i < entries.len() && (forall|j: int| i < j < entries.len() ==> #[trigger] entries[j].0 != entries[i].0)
            implies build_dict(entries).contains(#[trigger] entries[i]) by {
            if i < entries.len() - 1 {
                assert(prev[i] == entries[i]);
                assert forall|j: int| i < j < prev.len() implies #[trigger] prev[j].0 != prev[i].0 by {
                    assert(prev[j] == entries[j]);
                }
                assert(entries[entries.len() - 1].0 != entries[i].0);
                assert(build_dict(prev).contains(prev[i]));
                assert(dict_insert(build_dict(prev), last.0, last.1).contains(entries[i]));
            }
        }
    }
}

/// Every entry of a Properties dictionary comes from the request.
pub proof fn lemma_dict_from_entries(entries: Seq<(i32, Seq<u8>)>)
    ensures
        forall|e: (i32, Seq<u8>)| build_dict(entries).contains(e) ==> entries.contains(e),
    decreases entries.len(),
{
    if entries.len() > 0 {
        let prev = entries.drop_last();
        let last = entries.last();
        lemma_dict_from_entries(prev);
        lemma_dict_last_wins(prev);
        lemma_insert_keeps(build_dict(prev), last.0, last.1);
        let r = build_dict(entries);
        assert forall|e: (i32, Seq<u8>)| r.contains(e) implies entries.contains(e) by {
            assert(r == dict_insert(build_dict(prev), last.0, last.1));
            assert(dict_insert(build_dict(prev), last.0, last.1).contains(e));
            if build_dict(prev).contains(e) {
                assert(prev.contains(e));
                let j = choose|j: int| 0 <= j < prev.len() && prev[j] == e;
                assert(prev[j] == entries[j]);
                assert(entries[j] == e);
            } else {
                let j = choose|j: int| 0 <= j < r.len() && r[j] == e;
                let jj = choose|jj: int| 0 <= jj < r.len() && r[jj] == (last.0, last.1);
                if jj != j {
                    assert(r[j].0 == r[jj].0);
                }
                assert(entries[entries.len() - 1] == e);
            }
        }
    }
}

} // verus!
