use nox_relay::client::client::{AuthState, Client};
use nox_relay::client::user::User;
use nox_relay::config::{Config, LoadBalancingConfig};
use nox_relay::handlers::auth::{self, AuthStep};
use nox_relay::handlers::context::AppState;
use nox_relay::handlers::packet::{Delivery, Outgoing, PacketType};
use nox_relay::handlers::server_config::{self, ConfigStep};
use nox_relay::handlers::sessions::{sessions_response, SessionRecord};
use nox_relay::handlers::{
    avatar_changed, disconnect, enter, event, handshake, latency, player_update, properties, quit, stream, transform,
    traveling, voice,
};
use nox_relay::instance::flags::AUTHORIZE_BOT;
use nox_relay::instance::Instance;
use nox_relay::master::messages::{ResolveUserInfo, ResolveUserResponse};
use nox_relay::player::player_flags::HAS_HIGH_PRIVILEGE;
use nox_relay::player::{Player, PlayerStatus};
use nox_relay::wire::PacketWriter;

fn config() -> Config {
    Config {
        port: 23032,
        node_gateway: "http://127.0.0.1:3042".to_string(),
        node_address: "127.0.0.1:23032".to_string(),
        use_address: None,
        token: String::new(),
        max_instances: 3,
        connection_timeout: 15,
        keep_alive_interval: 5,
        property_resend_interval: 5,
        debug: false,
        load_balancing: LoadBalancingConfig::default(),
    }
}

fn user(id: u32, name: &str) -> User {
    User { id, username: name.to_string(), display_name: name.to_string(), address: "nox.test".to_string() }
}

fn authenticated(id: u16, name: &str) -> Client {
    let mut c = Client::new(id, format!("10.0.0.{id}:1000"), 5);
    c.engine = "unity".to_string();
    c.platform = "pc".to_string();
    c.user = Some(user(id as u32 + 100, name));
    c.auth_state = AuthState::Authenticated;
    c
}

/// A relay with instance 0 and three authenticated clients (1, 2, 3).
fn relay() -> AppState {
    let mut s = AppState::new(config(), 0);
    s.instances.add(Instance::new(0, 500));
    for id in 1..=3u16 {
        s.clients.add(authenticated(id, &format!("user{id}")));
    }
    s
}

fn enter_payload(iid: u8, flags: u8, display: Option<&str>) -> Vec<u8> {
    let mut w = PacketWriter::new();
    w.write_u8(iid);
    w.write_u8(flags);
    if let Some(d) = display {
        w.write_string(d);
    }
    w.finish()
}

fn enter_ready(s: &mut AppState, client: u16) -> u16 {
    let out = enter::handle(s, client, 1, enter_payload(0, 0, None), 1000);
    let pid = out.entered.expect("entered");
    let mut inst = s.instances.remove(0).unwrap();
    inst.set_player_status(pid, PlayerStatus::Ready);
    s.instances.add(inst);
    pid
}

fn with_instance<R>(s: &mut AppState, f: impl FnOnce(&mut Instance) -> R) -> R {
    let mut inst = s.instances.remove(0).unwrap();
    let r = f(&mut inst);
    s.instances.add(inst);
    r
}

fn recipients(outs: &[Outgoing]) -> Vec<u16> {
    outs.iter().map(|o| o.client_id).collect()
}

#[test]
fn enter_creates_player_and_announces() {
    let mut s = relay();
    let a = enter::handle(&mut s, 1, 9, enter_payload(0, 0, None), 1234);
    assert_eq!(a.entered, Some(0));
    assert!(a.outs.is_empty());
    let ev = a.event.expect("event");
    assert_eq!((ev.client_id, ev.player_id, ev.internal_id, ev.joined_at), (1, 0, 0, 1234));
    assert_eq!(ev.display, "user1");
    // the first player becomes instance master
    let flags = with_instance(&mut s, |i| i.get_player(0).unwrap().flags);
    assert_eq!(flags & nox_relay::player::player_flags::INSTANCE_MASTER, nox_relay::player::player_flags::INSTANCE_MASTER);

    let b = enter::handle(&mut s, 2, 9, enter_payload(0, 2, Some("Pseudo")), 2000);
    assert_eq!(b.entered, Some(1));
    // join of the newcomer to client 1, then the join of player 0 to the newcomer
    assert_eq!(recipients(&b.outs), vec![1, 2]);
    assert!(b.outs.iter().all(|o| o.packet_type == PacketType::Join && o.delivery == Delivery::Push));
    let join = &b.outs[0].payload;
    assert_eq!(join[0], 0);
    assert_eq!(&join[5..7], &[1, 0]);
    let reply = enter::respond(&mut s, 2, 9, 0, 1, 60).expect("reply");
    assert_eq!(reply.packet_type, PacketType::Enter);
    assert_eq!(reply.uid, 9);
    assert_eq!(&reply.payload[0..2], &[0, 0]);
}

#[test]
fn enter_refusals() {
    let mut s = relay();
    let missing = enter::handle(&mut s, 1, 4, enter_payload(7, 0, None), 0);
    assert_eq!(missing.outs[0].payload[1], 1);
    enter::handle(&mut s, 1, 4, enter_payload(0, 0, None), 0);
    let again = enter::handle(&mut s, 1, 4, enter_payload(0, 0, None), 0);
    assert_eq!(again.outs[0].payload[1], 7);
    let bot = enter::handle(&mut s, 2, 4, enter_payload(0, 1, None), 0);
    assert_eq!(bot.outs[0].payload[1], 8);
    with_instance(&mut s, |i| i.capacity = 1);
    let full = enter::handle(&mut s, 3, 4, enter_payload(0, 0, None), 0);
    assert_eq!(full.outs[0].payload[1], 2);
    // unauthenticated client: no answer at all
    s.clients.add(Client::new(9, "x".to_string(), 0));
    let ignored = enter::handle(&mut s, 9, 4, enter_payload(0, 0, None), 0);
    assert!(ignored.outs.is_empty() && ignored.entered.is_none());
}

#[test]
fn enter_with_password_and_bots() {
    let mut s = relay();
    with_instance(&mut s, |i| {
        i.set_password(Some("pw".to_string()));
        i.flags |= AUTHORIZE_BOT;
    });
    let wrong = enter::handle(&mut s, 1, 4, enter_payload(0, 4, Some("nope")), 0);
    assert_eq!(wrong.outs[0].payload[1], 6);
    let mut w = PacketWriter::new();
    w.write_u8(0);
    w.write_u8(1 | 4);
    w.write_string("pw");
    let ok = enter::handle(&mut s, 1, 4, w.finish(), 0);
    assert_eq!(ok.entered, Some(0));
}

#[test]
fn blank_pseudonym_is_dropped() {
    let mut s = relay();
    enter::handle(&mut s, 1, 1, enter_payload(0, 2, Some("   ")), 0);
    let display = with_instance(&mut s, |i| i.get_player(0).unwrap().display.clone());
    assert_eq!(display, None);
}

#[test]
fn quit_announces_leave_and_removes() {
    let mut s = relay();
    let p1 = enter_ready(&mut s, 1);
    let p2 = enter_ready(&mut s, 2);
    let outs = quit::handle(&mut s, 2, 5, vec![0, 0]);
    // leave to player 1, player 1's leave back to client 2, then the reply
    assert_eq!(recipients(&outs), vec![1, 2, 2]);
    assert_eq!(outs[0].payload, vec![0, 0, p2 as u8, 0]);
    assert_eq!(outs[1].payload, vec![0, 0, p1 as u8, 0]);
    assert_eq!(outs[2].packet_type, PacketType::Quit);
    assert_eq!(outs[2].payload, vec![0, 0]);
    assert!(with_instance(&mut s, |i| i.get_player(p2).is_none()));
    let again = quit::handle(&mut s, 2, 5, vec![0, 0]);
    assert_eq!(again[0].payload[1], 5);
}

#[test]
fn disconnect_leaves_every_instance() {
    let mut s = relay();
    enter_ready(&mut s, 1);
    enter_ready(&mut s, 2);
    let outs = disconnect::handle(&mut s, 1);
    assert_eq!(recipients(&outs), vec![2]);
    assert!(with_instance(&mut s, |i| i.find_client(1).is_none()));
    s.clients.add(Client::new(8, "y".to_string(), 0));
    assert!(disconnect::handle(&mut s, 8).is_empty());
}

#[test]
fn traveling_lifecycle() {
    let mut s = relay();
    enter::handle(&mut s, 1, 1, enter_payload(0, 0, None), 0);
    let travel = traveling::handle(&mut s, 1, 3, vec![0, 0]).expect("reply");
    assert_eq!(travel.payload[1], traveling::USE_NODE);
    let ready = traveling::handle(&mut s, 1, 3, vec![0, 1]).expect("reply");
    assert_eq!(ready.payload, vec![0, traveling::READY]);
    assert!(with_instance(&mut s, |i| i.get_player(0).unwrap().is_ready()));
    let again = traveling::handle(&mut s, 1, 3, vec![0, 1]).expect("reply");
    assert_eq!(again.payload[1], traveling::UNKNOWN);
    assert!(traveling::handle(&mut s, 1, 3, vec![0, 2]).is_none());
}

#[test]
fn traveling_refused_before_preparing() {
    let mut s = relay();
    with_instance(&mut s, |i| i.add_player(Player::new(0, 1, 0, 0)));
    let r = traveling::handle(&mut s, 1, 3, vec![0, 0]).expect("reply");
    assert_eq!(r.payload[1], traveling::UNKNOWN);
}

#[test]
fn handshake_marks_client() {
    let mut s = AppState::new(config(), 0);
    s.clients.add(Client::new(4, "1.2.3.4:5".to_string(), 77));
    let mut w = PacketWriter::new();
    w.write_u16(2);
    w.write_string("unity");
    w.write_string("quest");
    let out = handshake::handle(&mut s, 4, 1, w.finish());
    let reply = out.reply.expect("reply");
    assert_eq!(&reply.payload[0..4], &[2, 0, 4, 0]);
    let ev = out.event.expect("event");
    assert_eq!((ev.id, ev.address.as_str(), ev.engine.as_str(), ev.platform.as_str(), ev.connected_at), (4, "1.2.3.4:5", "unity", "quest", 77));
    assert_eq!(s.clients.get(4).unwrap().auth_state, AuthState::Handshaked);
    let wrong = handshake::handle(&mut s, 4, 1, vec![3, 0]);
    assert!(wrong.reply.is_none() && wrong.event.is_none());
}

#[test]
fn latency_echoes() {
    let s = relay();
    let mut w = PacketWriter::new();
    w.write_i64(11);
    w.write_i64(22);
    let out = latency::handle(&s, 1, 6, w.finish(), 33).expect("reply");
    let mut e = PacketWriter::new();
    e.write_i64(11);
    e.write_i64(33);
    e.write_i64(22);
    assert_eq!(out.payload, e.finish());
    assert!(latency::handle(&s, 42, 6, vec![], 0).is_none());
}

#[test]
fn authentication_steps() {
    let mut s = AppState::new(config(), 0);
    let mut c = Client::new(1, "a".to_string(), 0);
    c.auth_state = AuthState::Handshaked;
    s.clients.add(c);
    assert!(matches!(auth::begin(&s, 1, 2, vec![0]), AuthStep::NeedChallenge));
    let early = auth::begin(&s, 1, 2, vec![1]);
    match early {
        AuthStep::Reply(o) => assert_eq!(o.payload[0], 255),
        _ => panic!("expected a refusal"),
    }
    let challenge = auth::issue_challenge(&mut s, 1, 2, vec![7; 16]);
    assert_eq!(&challenge.payload[0..3], &[1, 16, 7]);
    assert_eq!(s.clients.get(1).unwrap().auth_state, AuthState::ChallengeIssued);
    let mut w = PacketWriter::new();
    w.write_u8(1);
    w.write_u16(2);
    w.write_bytes(&[1, 2]);
    w.write_u16(1);
    w.write_bytes(&[9]);
    w.write_u32(55);
    w.write_string("nox.test");
    match auth::begin(&s, 1, 2, w.finish()) {
        AuthStep::Verify(a) => {
            assert_eq!(a.challenge, vec![7; 16]);
            assert_eq!(a.public_key, vec![1, 2]);
            assert_eq!(a.signature, vec![9]);
            assert_eq!(a.user_id, 55);
            assert_eq!(a.server, "nox.test");
        }
        _ => panic!("expected a signature check"),
    }
    assert_eq!(auth::after_signature(1, 2, false).unwrap().payload[0], 5);
    assert!(auth::after_signature(1, 2, true).is_none());
    let resp = ResolveUserResponse {
        result: "success".to_string(),
        user: Some(ResolveUserInfo { id: 55, display: "Hacta".to_string(), server: "nox.test".to_string() }),
        expire_at: 0,
        reason: None,
        error: None,
    };
    let done = auth::finish(&mut s, 1, 2, Some(resp));
    assert_eq!(&done.payload[0..5], &[0, 55, 0, 0, 0]);
    let c = s.clients.get(1).unwrap();
    assert!(c.is_authenticated());
    assert_eq!(c.user.unwrap().display_name, "Hacta");
    assert!(matches!(auth::begin(&s, 1, 2, vec![0]), AuthStep::Ignore));
}

#[test]
fn authentication_failures() {
    let mut s = relay();
    let unreachable = auth::finish(&mut s, 1, 2, None);
    assert_eq!(unreachable.payload[0], 2);
    let black = ResolveUserResponse { result: "blacklisted".to_string(), user: None, expire_at: 9, reason: None, error: None };
    let b = auth::finish(&mut s, 1, 2, Some(black));
    assert_eq!(b.payload[0], 3);
    assert!(s.clients.get(1).unwrap().user.is_none());
    let bad = ResolveUserResponse { result: "nope".to_string(), user: None, expire_at: 0, reason: Some("why".to_string()), error: None };
    let i = auth::finish(&mut s, 2, 2, Some(bad));
    assert_eq!(i.payload, vec![4, 3, 0, b'w', b'h', b'y']);
}

#[test]
fn sessions_pages() {
    let records: Vec<SessionRecord> = (0..100u32)
        .map(|k| SessionRecord { flags: 0, iid: k as u8, master_id: k, player_count: 0, capacity: 0 })
        .collect();
    let p0 = sessions_response(&records, 0);
    assert_eq!(p0[0], 78);
    assert_eq!(p0.len(), 1 + 78 * 13 + 2);
    assert_eq!(&p0[p0.len() - 2..], &[0, 2]);
    let p1 = sessions_response(&records, 1);
    assert_eq!(p1[0], 22);
    assert_eq!(&p1[p1.len() - 2..], &[1, 2]);
    let p5 = sessions_response(&records, 5);
    assert_eq!(p5, vec![0, 5, 2]);
    assert_eq!(sessions_response(&vec![], 0), vec![0, 0, 0]);
}

#[test]
fn sessions_handler_lists_instances() {
    let mut s = relay();
    s.clients.add({
        let mut c = Client::new(7, "z".to_string(), 0);
        c.auth_state = AuthState::Handshaked;
        c
    });
    let out = nox_relay::handlers::sessions::handle(&mut s, 7, 1, vec![0]).expect("reply");
    assert_eq!(out.payload[0], 1);
    assert_eq!(out.payload[5], 0);
    s.clients.add(Client::new(8, "z".to_string(), 0));
    assert!(nox_relay::handlers::sessions::handle(&mut s, 8, 1, vec![0]).is_none());
}

#[test]
fn player_update_renames_and_broadcasts() {
    let mut s = relay();
    let p1 = enter_ready(&mut s, 1);
    enter_ready(&mut s, 2);
    let mut w = PacketWriter::new();
    w.write_u8(0);
    w.write_u16(p1);
    w.write_u8(1);
    w.write_string("New");
    let outs = player_update::handle(&mut s, 1, 8, w.finish());
    assert_eq!(recipients(&outs), vec![2, 1]);
    assert_eq!(outs[1].uid, 8);
    assert_eq!(&outs[1].payload[0..5], &[0, 2, p1 as u8, 0, 3]);
    assert_eq!(with_instance(&mut s, |i| i.get_player(p1).unwrap().display.clone()), Some("New".to_string()));
    let none = player_update::handle(&mut s, 1, 8, vec![0, 9, 0, 1]);
    assert_eq!(none[0].payload[1], 1);
    let bad = player_update::handle(&mut s, 1, 8, vec![0, p1 as u8, 0, 2]);
    assert_eq!(bad[0].payload[1], 1);
}

#[test]
fn properties_last_entry_wins() {
    let mut s = relay();
    let p1 = enter_ready(&mut s, 1);
    enter_ready(&mut s, 2);
    let mut w = PacketWriter::new();
    w.write_u8(0);
    w.write_u16(u16::MAX);
    w.write_u8(3);
    for (k, v) in [(5i32, 1u8), (6, 2), (5, 3)] {
        w.write_i32(k);
        w.write_u8(1);
        w.write_u8(v);
    }
    let outs = properties::handle(&mut s, 1, w.finish());
    assert_eq!(recipients(&outs), vec![2]);
    let p = &outs[0].payload;
    assert_eq!(&p[0..6], &[0, p1 as u8, 0, p1 as u8, 0, 2]);
    assert_eq!(&p[6..12], &[5, 0, 0, 0, 1, 3]);
    assert_eq!(&p[12..18], &[6, 0, 0, 0, 1, 2]);
    let empty = properties::handle(&mut s, 1, vec![0, 0xFF, 0xFF, 0]);
    assert_eq!(recipients(&empty), vec![2]);
    assert_eq!(empty[0].payload[5], 0);
}

#[test]
fn event_targets() {
    let mut s = relay();
    enter_ready(&mut s, 1);
    let p2 = enter_ready(&mut s, 2);
    enter_ready(&mut s, 3);
    let mut w = PacketWriter::new();
    w.write_u8(0);
    w.write_i64(77);
    w.write_u16(1);
    w.write_u8(9);
    let all = event::handle(&mut s, 1, w.finish());
    assert_eq!(recipients(&all), vec![2, 3]);
    let mut w = PacketWriter::new();
    w.write_u8(0);
    w.write_i64(77);
    w.write_u16(0);
    w.write_u8(2);
    w.write_u16(p2);
    w.write_u16(999);
    let targeted = event::handle(&mut s, 1, w.finish());
    assert_eq!(recipients(&targeted), vec![2]);
    let mut w = PacketWriter::new();
    w.write_u8(0);
    w.write_i64(1);
    w.write_u16(1025);
    assert!(event::handle(&mut s, 1, w.finish()).is_empty());
}

#[test]
fn avatar_change() {
    let mut s = relay();
    let p1 = enter_ready(&mut s, 1);
    let p2 = enter_ready(&mut s, 2);
    let mut w = PacketWriter::new();
    w.write_u8(0);
    w.write_u16(u16::MAX);
    w.write_u32(12);
    w.write_string("srv");
    w.write_u16(4);
    let outs = avatar_changed::handle(&mut s, 1, 2, w.finish());
    assert_eq!(recipients(&outs), vec![2, 1]);
    assert_eq!(outs[1].payload, vec![0, 3]);
    assert_eq!(with_instance(&mut s, |i| i.get_player(p1).unwrap().avatar.as_ref().map(|a| a.id)), Some(12));
    // player 2 holds no role and may not change player 1's avatar
    let mut w = PacketWriter::new();
    w.write_u8(0);
    w.write_u16(p1);
    w.write_u32(1);
    let denied = avatar_changed::handle(&mut s, 2, 2, w.finish());
    assert_eq!(denied.len(), 1);
    assert_eq!(denied[0].payload[1], 2);
    let _ = p2;
}

#[test]
fn server_config_change_and_echo() {
    let mut s = relay();
    let p1 = enter_ready(&mut s, 1);
    enter_ready(&mut s, 2);
    let denied = server_config::apply(&mut s, 1, 3, vec![0, 1, 30]);
    assert!(matches!(denied, ConfigStep::Failed(_)));
    with_instance(&mut s, |i| {
        let idx = i.find_player(p1).unwrap();
        i.players[idx].flags |= HAS_HIGH_PRIVILEGE;
    });
    let mut w = PacketWriter::new();
    w.write_u8(0);
    w.write_u8(0x01 | 0x04);
    w.write_u8(30);
    w.write_u16(12);
    match server_config::apply(&mut s, 1, 3, w.finish()) {
        ConfigStep::Changed(iid, pid, flags) => {
            assert_eq!((iid, pid, flags), (0, p1, 0x05));
            let outs = server_config::change_responses(&mut s, 1, 3, iid, pid, flags, 30);
            assert_eq!(recipients(&outs), vec![2, 1]);
            assert_eq!(outs[1].payload, vec![0, 2, 5, 30, 12, 0]);
        }
        _ => panic!("expected a change"),
    }
    assert_eq!(with_instance(&mut s, |i| (i.tps, i.capacity)), (30, 12));
    match server_config::apply(&mut s, 1, 3, vec![0, 0]) {
        ConfigStep::Echo(iid, pid) => {
            let o = server_config::echo_response(&mut s, 1, 3, iid, pid, 30).unwrap();
            assert_eq!(&o.payload[0..4], &[0, 2, 0xFF, 30]);
        }
        _ => panic!("expected an echo"),
    }
    assert!(matches!(server_config::apply(&mut s, 1, 3, vec![0, 0x20]), ConfigStep::Failed(_)));
}

#[test]
fn transform_forwarded_to_viewers() {
    let mut s = relay();
    let p1 = enter_ready(&mut s, 1);
    let p2 = enter_ready(&mut s, 2);
    let mut w = PacketWriter::new();
    w.write_u8(0);
    w.write_u8(1);
    w.write_u16(u16::MAX);
    w.write_u16(7);
    w.write_u8(0x01);
    w.write_u32(1);
    w.write_u32(2);
    w.write_u32(3);
    let payload = w.finish();
    // player 2 cannot see player 1 yet
    assert!(transform::handle(&mut s, 1, payload.clone()).is_empty());
    with_instance(&mut s, |i| {
        let g = i.get_or_create_view_group(p2);
        i.view_groups[g].add_visible_group(p1 as u32);
    });
    let outs = transform::handle(&mut s, 1, payload);
    assert_eq!(recipients(&outs), vec![2]);
    assert_eq!(outs[0].delivery, Delivery::Datagram);
    assert_eq!(&outs[0].payload[0..7], &[0, 1, p1 as u8, 0, 7, 0, 1]);
    assert_eq!(&outs[0].payload[outs[0].payload.len() - 2..], &[p1 as u8, 0]);
    let stored = with_instance(&mut s, |i| i.get_player(p1).unwrap().transforms.get(7));
    assert_eq!(stored.map(|t| t.position.z), Some(3));
}

#[test]
fn stream_sample_and_control() {
    let mut s = relay();
    let p1 = enter_ready(&mut s, 1);
    let p2 = enter_ready(&mut s, 2);
    let mut w = PacketWriter::new();
    w.write_u8(0);
    w.write_u8(0);
    w.write_u32(0);
    w.write_u8(0);
    w.write_i32(1);
    w.write_u64(2);
    w.write_bytes(&[9, 9]);
    let sample = w.finish();
    assert_eq!(recipients(&stream::handle(&mut s, 1, sample.clone())), vec![2]);
    // a recorded permission for someone else silences the others
    let mut c = PacketWriter::new();
    c.write_u8(0);
    c.write_u8(1);
    c.write_u16(p1);
    c.write_u16(p2);
    c.write_u8(1);
    let control = c.finish();
    let echo = stream::handle(&mut s, 3, control.clone());
    assert_eq!(recipients(&echo), vec![3]);
    assert_eq!(echo[0].payload, control);
    assert!(stream::handle(&mut s, 1, sample.clone()).is_empty());
    assert_eq!(recipients(&stream::handle(&mut s, 2, sample)), vec![1]);
}

#[test]
fn voice_forwarded_to_others() {
    let mut s = relay();
    let p1 = enter_ready(&mut s, 1);
    enter_ready(&mut s, 2);
    let outs = voice::handle(&mut s, 1, vec![0, 4, 1, 0, 0, 0, 2, 8, 8]);
    assert_eq!(recipients(&outs), vec![2]);
    assert_eq!(outs[0].payload, vec![0, 4, p1 as u8, 0, 1, 0, 0, 0, 2, 8, 8]);
}
