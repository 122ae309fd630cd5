//! Latency: `[client_timestamp: i64][client_long: i64]`, answered with
//! `[client_timestamp][server_timestamp: i64][client_long]`.
use vstd::prelude::*;

use super::context::AppState;
use super::packet::{out, Delivery, OutView, Outgoing, PacketType};
use crate::wire::{le64, take_i64, PacketReader, PacketWriter};

verus! {

/// The reply to a Latency request received at `now_ms`, when the sender has handshaked.
pub open spec fn spec_latency(state: AppState, client_id: u16, uid: u16, payload: Seq<u8>, now_ms: i64) -> Option<OutView> {
    if state.clients@.contains_key(client_id) && state.clients@[client_id].spec_is_handshaked() {
        let (ts, r1) = take_i64(payload);
        let long = take_i64(r1).0;
        Some(out(client_id, uid, PacketType::Latency, le64(ts as u64) + le64(now_ms as u64) + le64(long as u64), Delivery::Reply))
    } else {
        None
    }
}

/// Handles a Latency request from client `client_id` received at `now_ms`.
pub fn handle(state: &AppState, client_id: u16, uid: u16, payload: Vec<u8>, now_ms: i64) -> (o: Option<Outgoing>)
    ensures
        match o {
            Some(x) => spec_latency(*state, client_id, uid, payload@, now_ms) == Some(x@),
            None => spec_latency(*state, client_id, uid, payload@, now_ms) is None,
        },
{
    let ok = match state.clients.get(client_id) {
        Some(c) => c.is_handshaked(),
        None => false,
    };
    if !ok {
        return None;
    }
    let mut r = PacketReader::new(payload);
    let ts = r.read_i64();
    let long = r.read_i64();
    let mut w = PacketWriter::new();
    w.write_i64(ts);
    w.write_i64(now_ms);
    w.write_i64(long);
    let ghost v = w@;
    assert(v =~= le64(ts as u64) + le64(now_ms as u64) + le64(long as u64));
    Some(Outgoing::new(client_id, uid, PacketType::Latency, w.finish(), Delivery::Reply))
}

} // verus!
