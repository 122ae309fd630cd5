use nox_relay::client::client::{AuthState, Client};
use nox_relay::commands::execute::{CommandContext, LogLevel};
use nox_relay::commands::parse::{parse_u8, split_whitespace};
use nox_relay::commands::{CommandKind, CommandRegistry, HelpCommand, Resolved, TpsCommand, UptimeCommand, UseCommand, VersionCommand};
use nox_relay::config::{Config, LoadBalancingConfig};
use nox_relay::handlers::context::AppState;
use nox_relay::handlers::quit::QuitType;
use nox_relay::instance::Instance;
use nox_relay::master::master_client::{
    next_backoff_secs, on_connected_step, ConnectAction, ConnectEvent, create_requested, drop_instance, get_clients, get_instances, get_players, has_instance, instances_needed, on_new_instance,
    remove_invalid, sync_instance_data,
};
use nox_relay::master::messages::{
    default_limit, GetPlayersReq, InstanceSpec, RequestInstancesResp, SyncInstancesResp, WorldSpec, WsMessage,
};
use nox_relay::master::relay_extensions::build_status;
use nox_relay::player::{Player, PlayerStatus};

fn config() -> Config {
    Config {
        port: 23032,
        node_gateway: "http://127.0.0.1:3042".to_string(),
        node_address: "127.0.0.1:23032".to_string(),
        use_address: None,
        token: String::new(),
        max_instances: 3,
        connection_timeout: 15,
        keep_alive_interval: 5,
        property_resend_interval: 5,
        debug: true,
        load_balancing: LoadBalancingConfig::default(),
    }
}

fn spec(id: u32) -> InstanceSpec {
    InstanceSpec { id, password: None, capacity: 16, world: Some(WorldSpec { id: 9, address: "w.test".to_string(), version: 2 }) }
}

#[test]
fn split_and_resolve() {
    assert_eq!(split_whitespace("  use \t 3  "), vec!["use".to_string(), "3".to_string()]);
    assert!(split_whitespace(" \n ").is_empty());
    let reg = CommandRegistry::new();
    assert_eq!(reg.commands.len(), 14);
    assert_eq!(reg.commands_info[0].name, "help");
    match reg.resolve("TPS 30") {
        Resolved::Found(k, args) => {
            assert_eq!(k, CommandKind::Tps);
            assert_eq!(args, vec!["30".to_string()]);
        }
        _ => panic!("tps should resolve"),
    }
    assert!(matches!(reg.resolve("Th"), Resolved::Found(CommandKind::Threshold, _)));
    assert!(matches!(reg.resolve("   "), Resolved::Empty));
    match reg.resolve("frob x") {
        Resolved::Unknown(w) => assert_eq!(w, "frob"),
        _ => panic!("frob is unknown"),
    }
}

#[test]
fn parse_u8_like_std() {
    assert_eq!(parse_u8("0"), Some(0));
    assert_eq!(parse_u8("+7"), Some(7));
    assert_eq!(parse_u8("007"), Some(7));
    assert_eq!(parse_u8("255"), Some(255));
    assert_eq!(parse_u8("256"), None);
    assert_eq!(parse_u8(""), None);
    assert_eq!(parse_u8("+"), None);
    assert_eq!(parse_u8("-1"), None);
    assert_eq!(parse_u8("1a"), None);
    for v in [0u8, 9, 10, 99, 100, 254, 255] {
        assert_eq!(parse_u8(&v.to_string()), Some(v));
    }
}

#[test]
fn use_then_tps() {
    let mut state = AppState::new(config(), 0);
    state.instances.add(Instance::new(2, 50));
    let mut ctx = CommandContext::new(0, vec![]);
    let none = TpsCommand::execute(&ctx, &mut state, &vec![], 20);
    assert_eq!(none[0].level, LogLevel::Warn);
    let usage = UseCommand::execute(&mut ctx, &state, &vec![]);
    assert_eq!(usage[0].text, "Usage: use <internal_id>");
    let missing = UseCommand::execute(&mut ctx, &state, &vec!["4".to_string()]);
    assert_eq!(missing[0].text, "No instance with internal_id 4");
    let bad = UseCommand::execute(&mut ctx, &state, &vec!["x".to_string()]);
    assert_eq!(bad[0].text, "Invalid internal_id: 'x' (must be 0–254)");
    let ok = UseCommand::execute(&mut ctx, &state, &vec!["2".to_string()]);
    assert_eq!(ok[0].text, "Selected instance #2");
    assert_eq!(ctx.selected_instance, Some(2));
    let show = TpsCommand::execute(&ctx, &mut state, &vec![], 20);
    assert_eq!(show[0].text, "Instance #2 TPS: 60 (effective: 20)");
    let zero = TpsCommand::execute(&ctx, &mut state, &vec!["0".to_string()], 20);
    assert_eq!(zero[0].text, "TPS must be > 0, got '0'");
    let set = TpsCommand::execute(&ctx, &mut state, &vec!["30".to_string()], 20);
    assert_eq!(set[0].text, "Instance #2 TPS set to 30");
    let inst = state.instances.remove(2).unwrap();
    assert_eq!(inst.tps, 30);
}

#[test]
fn uptime_and_version_lines() {
    let ctx = CommandContext::new(1_000, vec![]);
    assert_eq!(UptimeCommand::execute(&ctx, 1_000 + 3_661_000)[0].text, "Relay uptime: 1h 1m 1s");
    assert_eq!(UptimeCommand::execute(&ctx, 1_000 - 61_000)[0].text, "Relay uptime: 0h -1m -1s");
    let v = VersionCommand::execute();
    assert_eq!(v[1].text, "  Engine: nox v0.1.0");
    assert_eq!(v[2].text, "  Protocol: 2");
}

#[test]
fn help_aligns_names() {
    let reg = CommandRegistry::new();
    let ctx = CommandContext::new(0, reg.commands_info);
    let lines = HelpCommand::execute(&ctx);
    assert_eq!(lines[0].text, "Available Commands:");
    assert_eq!(lines[1].text, "  help      - Show this help message");
    assert_eq!(lines.len(), 15);
}

#[test]
fn codes_round_trip() {
    for c in 0..=5u8 {
        assert_eq!(QuitType::from_u8(c).code(), c);
    }
    assert_eq!(QuitType::from_u8(200), QuitType::UnknownError);
    assert!(QuitType::ModerationKick.is_moderation_action());
    assert!(!QuitType::Timeout.is_moderation_action());
    for c in 0..=4u8 {
        assert_eq!(PlayerStatus::try_from(c).map(|s| s.code()), Ok(c));
    }
    assert_eq!(PlayerStatus::try_from(5), Err(5));
}

#[test]
fn master_instance_lifecycle() {
    let mut state = AppState::new(config(), 0);
    assert_eq!(instances_needed(3, 0), 3);
    assert_eq!(instances_needed(3, 5), 0);
    let iid = on_new_instance(&mut state, spec(100)).unwrap();
    assert_eq!(iid, 0);
    assert!(has_instance(&mut state, 100));
    create_requested(&mut state, vec![spec(100), spec(101)]);
    assert_eq!(state.instances.count(), 2);
    let inst = state.instances.remove(1).unwrap();
    assert_eq!((inst.master_id, inst.capacity, inst.world.version), (101, 16, 2));
    assert_eq!(inst.flags & nox_relay::instance::flags::AUTHORIZE_BOT, nox_relay::instance::flags::AUTHORIZE_BOT);
    state.instances.add(inst);
    assert_eq!(on_new_instance(&mut state, spec(102)), Some(2));
    assert_eq!(on_new_instance(&mut state, spec(103)), None);
    assert_eq!(sync_instance_data(&mut state).len(), 3);
    remove_invalid(&mut state, &vec![102, 999]);
    assert!(!has_instance(&mut state, 102));
    assert_eq!(drop_instance(&mut state, 100), Some(0));
    assert_eq!(drop_instance(&mut state, 100), None);
    assert_eq!(state.instances.count(), 1);
}

#[test]
fn master_listings() {
    let mut state = AppState::new(config(), 0);
    on_new_instance(&mut state, spec(1));
    let mut c = Client::new(3, "addr".to_string(), 42);
    c.auth_state = AuthState::Authenticated;
    state.clients.add(c);
    let mut inst = state.instances.remove(0).unwrap();
    inst.add_player(Player::new(0, 3, 0, 7));
    let mut hidden = Player::new(1, 3, 0, 8);
    hidden.flags = nox_relay::player::player_flags::HIDE_IN_LIST;
    inst.add_player(hidden);
    state.instances.add(inst);
    let cl = get_clients(&state, 0, 0);
    assert_eq!(cl.total, 1);
    assert_eq!(cl.clients[0].a, "addr");
    assert_eq!(cl.clients[0].t, 42);
    let il = get_instances(&mut state, 0, 0);
    assert_eq!(il.total, 1);
    assert_eq!(il.instances[0].w, "9?v=2@w.test");
    assert_eq!(il.instances[0].p, 2);
    let visible = get_players(&mut state, &GetPlayersReq { i: 0, l: 0, o: 0, a: false });
    assert_eq!(visible.t, 1);
    assert_eq!(visible.i[0].d, "Unknown");
    let all = get_players(&mut state, &GetPlayersReq { i: 0, l: 1, o: 1, a: true });
    assert_eq!(all.t, 2);
    assert_eq!(all.i.len(), 1);
    assert_eq!(all.i[0].i, 1);
    let none = get_players(&mut state, &GetPlayersReq { i: 300, l: 0, o: 0, a: true });
    assert_eq!(none.t, 0);
}

#[test]
fn status_and_envelope() {
    let state = AppState::new(config(), 99);
    let st = build_status(&state);
    assert_eq!((st.c, st.i, st.m, st.p, st.u), (0, 0, 3, 2, 99));
    assert_eq!(st.a, vec![("quic".to_string(), "0.0.0.0:23032".to_string())]);
    let m = WsMessage::new("status", 5u8).with_id("abc");
    assert_eq!(m.msg_type, "status");
    assert_eq!(m.id.as_deref(), Some("abc"));
    assert_eq!(default_limit(), 100);
}

#[test]
fn requested_instances_skip_hosted_master_ids() {
    let mut state = AppState::new(config(), 0);
    create_requested(&mut state, vec![spec(100), spec(100), spec(101)]);
    assert_eq!(state.instances.count(), 2);
    let mut ids: Vec<u32> = sync_instance_data(&mut state).iter().map(|d| d.master_id).collect();
    ids.sort();
    assert_eq!(ids, vec![100, 101]);
    create_requested(&mut state, vec![spec(101)]);
    assert_eq!(state.instances.count(), 2);
}

#[test]
fn new_instance_with_password_is_protected() {
    let mut state = AppState::new(config(), 0);
    let mut s = spec(7);
    s.password = Some("secret".to_string());
    assert_eq!(on_new_instance(&mut state, s), Some(0));
    let inst = state.instances.remove(0).unwrap();
    assert!(inst.has_password());
    assert!(inst.verify_password("secret"));
    assert!(!inst.verify_password("other"));
}

fn sync_answer(success: bool, invalid: Option<Vec<u32>>) -> Option<SyncInstancesResp> {
    Some(SyncInstancesResp { success, error: None, invalid_instances: invalid, synced_count: 0, conflicts_resolved: 0 })
}

#[test]
fn connect_steps() {
    let mut state = AppState::new(config(), 0);
    // nothing hosted: ask for all three
    assert!(matches!(on_connected_step(&mut state, ConnectEvent::Connected), ConnectAction::Request(3)));
    // no answer, or a refusal, stops
    assert!(matches!(on_connected_step(&mut state, ConnectEvent::Received(None)), ConnectAction::Done));
    let refused = RequestInstancesResp { success: false, error: None, instances: vec![spec(1)] };
    assert!(matches!(on_connected_step(&mut state, ConnectEvent::Received(Some(refused))), ConnectAction::Done));
    assert_eq!(state.instances.count(), 0);
    let given = RequestInstancesResp { success: true, error: None, instances: vec![spec(1), spec(2)] };
    assert!(matches!(on_connected_step(&mut state, ConnectEvent::Received(Some(given))), ConnectAction::Report));
    assert_eq!(state.instances.count(), 2);
    // instances hosted: sync first
    assert!(matches!(on_connected_step(&mut state, ConnectEvent::Connected), ConnectAction::Sync));
    assert!(matches!(on_connected_step(&mut state, ConnectEvent::Synced(None)), ConnectAction::Done));
    assert!(matches!(on_connected_step(&mut state, ConnectEvent::Synced(sync_answer(false, Some(vec![1])))), ConnectAction::Done));
    assert_eq!(state.instances.count(), 2);
    // accepted, with master id 1 invalid: it goes, and two are missing
    assert!(matches!(
        on_connected_step(&mut state, ConnectEvent::Synced(sync_answer(true, Some(vec![1])))),
        ConnectAction::Request(2)
    ));
    assert_eq!(state.instances.count(), 1);
    let empty = RequestInstancesResp { success: true, error: None, instances: vec![] };
    assert!(matches!(on_connected_step(&mut state, ConnectEvent::Received(Some(empty))), ConnectAction::Done));
}

#[test]
fn backoff_doubles_up_to_thirty_seconds() {
    let mut b = 1;
    let mut seen = vec![];
    for _ in 0..7 {
        seen.push(b);
        b = next_backoff_secs(b);
    }
    assert_eq!(seen, vec![1, 2, 4, 8, 16, 30, 30]);
    assert_eq!(next_backoff_secs(u64::MAX), 30);
}
