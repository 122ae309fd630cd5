//! Handshake: `[protocol: u16][engine: string][platform: string]`.
//!
//! A client speaking the relay's protocol is marked handshaked and learns its
//! id and the session settings: `[protocol: u16][client_id: u16][ip: 4 bytes]
//! [port: u16][flags: u8](?[node_address: string])[max_packet: u16]
//! [connection_timeout: u16][keep_alive_interval: u16]`. Another protocol gets
//! no answer.
use vstd::prelude::*;

use super::context::AppState;
use super::packet::{out, Delivery, OutView, Outgoing, PacketType};
use crate::client::client::{AuthState, Client};
use crate::config::Config;
use crate::constants::{MAX_PACKET_SIZE, PROTOCOL_VERSION};
use crate::master::messages::EventClientConnected;
use crate::wire::{le16, string_field, take_string, take_u16, PacketReader, PacketWriter};

verus! {

/// Handshake flag: the relay knows no node server.
pub const IS_OFFLINE: u8 = 1 << 0;

/// A string field read as text, or nothing.
pub open spec fn or_empty(s: Option<Seq<char>>) -> Seq<char> {
    match s {
        Some(t) => t,
        None => Seq::empty(),
    }
}

/// The engine and platform a Handshake names.
pub open spec fn handshake_fields(payload: Seq<u8>) -> (Seq<char>, Seq<char>) {
    let r1 = take_u16(payload).1;
    let (engine, r2) = take_string(r1);
    (or_empty(engine), or_empty(take_string(r2).0))
}

/// The Handshake reply to client `client_id`.
pub open spec fn handshake_payload(client_id: u16, config: Config) -> Seq<u8> {
    let has_master = config.node_address@.len() > 0;
    le16(PROTOCOL_VERSION) + le16(client_id) + seq![0u8, 0u8, 0u8, 0u8] + le16(0) + seq![if has_master { 0u8 } else { IS_OFFLINE }]
        + (if has_master { string_field(config.node_address@) } else { Seq::empty() }) + le16(MAX_PACKET_SIZE as u16)
        + le16(config.connection_timeout) + le16(config.keep_alive_interval)
}

/// What a Handshake produced: the reply and the event for the node.
pub struct HandshakeOutcome {
    pub reply: Option<Outgoing>,
    pub event: Option<EventClientConnected>,
}

/// Handles a Handshake from client `client_id`.
pub fn handle(state: &mut AppState, client_id: u16, uid: u16, payload: Vec<u8>) -> (r: HandshakeOutcome)
    requires
        old(state).wf(),
    ensures
        final(state).wf(),
        final(state).instances@ == old(state).instances@,
        final(state).config == old(state).config,
        if take_u16(payload@).0 != PROTOCOL_VERSION {
            &&& r.reply is None
            &&& r.event is None
            &&& final(state).clients@ == old(state).clients@
        } else {
            let (engine, platform) = handshake_fields(payload@);
            let old_c = old(state).clients@[client_id];
            let known = old(state).clients@.contains_key(client_id);
            &&& r.reply matches Some(o) && o@ == out(
                client_id,
                uid,
                PacketType::Handshake,
                handshake_payload(client_id, old(state).config),
                Delivery::Reply,
            )
            &&& r.event matches Some(ev) && ev.id == client_id && ev.engine@ == engine && ev.platform@ == platform
                && ev.address@ == (if known { old_c.address@ } else { Seq::empty() })
                && ev.connected_at == (if known { old_c.connected_at } else { 0 })
            &&& final(state).clients@.dom() == old(state).clients@.dom()
            &&& forall|k: u16| k != client_id && #[trigger] old(state).clients@.contains_key(k)
                ==> final(state).clients@[k] == old(state).clients@[k]
            &&& known ==> {
                let c = final(state).clients@[client_id];
                &&& c.engine@ == engine
                &&& c.platform@ == platform
                &&& c.auth_state == AuthState::Handshaked
                &&& c.id == old_c.id
                &&& c.address == old_c.address
                &&& c.connected_at == old_c.connected_at
                &&& c.user == old_c.user
                &&& c.challenge == old_c.challenge
            }
        },
{
    let mut r = PacketReader::new(payload);
    let protocol = r.read_u16();
    if protocol != PROTOCOL_VERSION {
        return HandshakeOutcome { reply: None, event: None };
    }
    let engine = match r.read_string() {
        Some(s) => s,
        None => String::new(),
    };
    let platform = match r.read_string() {
        Some(s) => s,
        None => String::new(),
    };
    let (address, connected_at) = match state.clients.remove(client_id) {
        Some(c) => {
            let mut c = c;
            c.engine = engine.clone();
            c.platform = platform.clone();
            c.auth_state = AuthState::Handshaked;
            let info = (c.address.clone(), c.connected_at);
            state.clients.add(c);
            assert(state.clients@.dom() =~= old(state).clients@.dom());
            info
        },
        None => {
            assert(state.clients@ =~= old(state).clients@);
            (String::new(), 0)
        },
    };
    let event = EventClientConnected { id: client_id, address, platform, engine, connected_at };
    let mut w = PacketWriter::new();
    w.write_u16(PROTOCOL_VERSION);
    w.write_u16(client_id);
    w.write_u8(0);
    w.write_u8(0);
    w.write_u8(0);
    w.write_u8(0);
    w.write_u16(0);
    let ghost w0 = w@;
    let has_master = !state.config.node_address.as_str().is_empty();
    if has_master {
        w.write_u8(0);
        w.write_string(state.config.node_address.as_str());
    } else {
        w.write_u8(IS_OFFLINE);
    }
    let ghost w1 = w@;
    assert(w1 =~= w0 + seq![if has_master { 0u8 } else { IS_OFFLINE }]
        + (if has_master { string_field(state.config.node_address@) } else { Seq::empty() }));
    w.write_u16(MAX_PACKET_SIZE as u16);
    w.write_u16(state.config.connection_timeout);
    w.write_u16(state.config.keep_alive_interval);
    let ghost v = w@;
    assert(v =~= handshake_payload(client_id, state.config));
    let reply = Outgoing::new(client_id, uid, PacketType::Handshake, w.finish(), Delivery::Reply);
    HandshakeOutcome { reply: Some(reply), event: Some(event) }
}

} // verus!
