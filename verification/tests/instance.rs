use nox_relay::instance::flags::{ALLOW_OVERLOAD, USE_PASSWORD};
use nox_relay::instance::view_group::ViewGroup;
use nox_relay::instance::Instance;
use nox_relay::instance::InstanceManager;
use nox_relay::player::player_flags::INSTANCE_MASTER;
use nox_relay::player::player_transform::PlayerTransforms;
use nox_relay::player::rig::{Transform, POSITION, RESET, ROTATION};
use nox_relay::player::{Player, PlayerStatus};

fn player(id: u16, client: u16) -> Player {
    Player::new(id, client, 0, 1000)
}

#[test]
fn new_instance_defaults() {
    let inst = Instance::new(3, 77);
    assert_eq!(inst.internal_id, 3);
    assert_eq!(inst.master_id, 77);
    assert_eq!(inst.tps, 60);
    assert_eq!(inst.capacity, 0);
    assert_eq!(inst.player_count(), 0);
    assert!(!inst.has_password());
    assert_eq!(inst.world.address, "::");
}

#[test]
fn next_player_id_is_lowest_free() {
    let mut inst = Instance::new(0, 1);
    assert_eq!(inst.next_player_id(), 0);
    inst.add_player(player(0, 10));
    inst.add_player(player(1, 11));
    inst.add_player(player(3, 13));
    assert_eq!(inst.next_player_id(), 2);
    inst.remove_player(0);
    assert_eq!(inst.next_player_id(), 0);
}

#[test]
fn add_then_get_then_remove() {
    let mut inst = Instance::new(0, 1);
    inst.add_player(player(5, 50));
    assert_eq!(inst.get_player(5).map(|p| p.client_id), Some(50));
    assert_eq!(inst.find_client(50), Some(0));
    let removed = inst.remove_player(5);
    assert_eq!(removed.map(|p| p.id), Some(5));
    assert!(inst.get_player(5).is_none());
    assert!(inst.remove_player(5).is_none());
    // the automatic group went away with the player
    assert!(inst.get_view_group(5).is_none());
}

#[test]
fn auto_group_created_and_self_visible() {
    let mut inst = Instance::new(0, 1);
    inst.add_player(player(4, 40));
    let g = inst.get_view_group(4).expect("auto group");
    assert!(g.is_auto_group());
    assert!(g.is_member(4));
    assert!(g.can_see_group(4));
    assert!(inst.can_user_see_user(4, 4));
    assert_eq!(inst.get_user_groups(4), vec![4]);
}

#[test]
fn visibility_through_custom_group() {
    let mut inst = Instance::new(0, 1);
    inst.add_player(player(1, 10));
    inst.add_player(player(2, 20));
    assert!(!inst.can_user_see_user(1, 2));
    let gid = inst.create_custom_group(Some("team".to_string()));
    assert_eq!(gid, 0x1_0000);
    let i = inst.get_or_create_view_group(1);
    inst.view_groups[i].add_visible_group(2);
    assert!(inst.can_user_see_user(1, 2));
    assert!(!inst.can_user_see_user(2, 1));
    // auto groups cannot be removed, custom ones can
    assert!(!inst.remove_view_group(2));
    assert!(inst.remove_view_group(gid));
    assert!(!inst.remove_view_group(gid));
}

#[test]
fn full_and_overload() {
    let mut inst = Instance::new(0, 1);
    inst.capacity = 1;
    assert!(!inst.is_full());
    inst.add_player(player(0, 10));
    assert!(inst.is_full());
    inst.flags |= ALLOW_OVERLOAD;
    assert!(!inst.is_full());
}

#[test]
fn password_set_verify_clear() {
    let mut inst = Instance::new(0, 1);
    assert!(inst.verify_password("anything"));
    assert!(inst.set_password(Some("secret".to_string())));
    assert!(inst.has_password());
    assert_eq!(inst.flags & USE_PASSWORD, USE_PASSWORD);
    assert!(inst.verify_password("secret"));
    assert!(!inst.verify_password("wrong"));
    assert!(inst.set_password(None));
    assert!(!inst.has_password());
    assert!(inst.verify_password("wrong"));
}

#[test]
fn master_promotion_goes_to_oldest() {
    let mut inst = Instance::new(0, 1);
    assert!(!inst.promote_master_if_none());
    inst.add_player(player(1, 10));
    inst.add_player(player(2, 20));
    assert!(inst.promote_master_if_none());
    assert_eq!(inst.get_master().map(|p| p.id), Some(1));
    assert_eq!(inst.players[0].flags & INSTANCE_MASTER, INSTANCE_MASTER);
    assert!(!inst.promote_master_if_none());
}

#[test]
fn player_status_and_display() {
    let mut inst = Instance::new(0, 1);
    inst.add_player(player(1, 10));
    assert!(inst.set_player_status(1, PlayerStatus::Ready));
    assert!(inst.get_player(1).unwrap().is_ready());
    assert!(inst.set_player_display(1, Some("Nick".to_string())));
    assert_eq!(inst.get_player(1).unwrap().display.as_deref(), Some("Nick"));
    assert!(!inst.set_player_status(9, PlayerStatus::Ready));
}

#[test]
fn transform_flags_accumulate_until_reset() {
    let mut t = PlayerTransforms::new();
    let tr = Transform::default();
    t.set(3, POSITION, tr, false);
    t.set(3, ROTATION, tr, false);
    assert_eq!(t.get(3), Some(tr));
    let mut inst = Instance::new(0, 1);
    inst.add_player(player(1, 10));
    assert!(inst.set_player_transform(1, 3, POSITION, tr, false));
    assert!(inst.set_player_transform(1, 3, ROTATION, tr, true));
    assert!(inst.get_player(1).unwrap().transforms.get(3).is_some());
}

#[test]
fn hearing_permissions() {
    let mut inst = Instance::new(0, 1);
    assert!(inst.hearing_is_empty());
    inst.set_hearing(1, 2, 0, true);
    assert!(inst.hears(1, 2, 0));
    assert!(!inst.hears(2, 1, 0));
    inst.set_hearing(1, 2, 0, true);
    inst.set_hearing(1, 2, 0, false);
    assert!(!inst.hears(1, 2, 0));
    assert!(inst.hearing_is_empty());
}

#[test]
fn view_group_membership() {
    let mut g = ViewGroup::new(0x1_0001, None);
    assert!(g.is_custom_group());
    assert!(g.has_no_members());
    assert!(g.add_member(3));
    assert!(!g.add_member(3));
    assert!(g.is_member(3));
    assert!(g.remove_member(3));
    assert!(!g.remove_member(3));
    assert!(g.add_visible_group(9));
    assert!(g.remove_visible_group(9));
    assert!(!g.can_see_group(9));
}

#[test]
fn instance_manager_ids() {
    let mut m = InstanceManager::new();
    assert_eq!(m.next_internal_id(), 0);
    m.add(Instance::new(0, 10));
    m.add(Instance::new(2, 12));
    assert_eq!(m.next_internal_id(), 1);
    assert_eq!(m.count(), 2);
    assert!(m.contains(2));
    let mut ids = m.ids();
    ids.sort();
    assert_eq!(ids, vec![0, 2]);
    assert_eq!(m.remove(2).map(|i| i.master_id), Some(12));
    assert!(!m.contains(2));
}

#[test]
fn effective_settings_fall_back() {
    let mut inst = Instance::new(0, 1);
    let mut lb = nox_relay::config::LoadBalancingConfig::default();
    lb.enabled = false;
    assert_eq!(inst.get_effective_tps(&lb, 20), 60);
    lb.enabled = true;
    assert_eq!(inst.get_effective_tps(&lb, 20), 20);
    inst.set_effective_settings(30, 7);
    assert_eq!(inst.get_effective_tps(&lb, 20), 30);
    assert_eq!(inst.get_effective_threshold(), 7);
    assert_eq!(inst.reset_adaptive_settings(), (60, nox_relay::constants::DEFAULT_THRESHOLD_BITS, true));
    assert_eq!(inst.reset_adaptive_settings().2, false);
}

#[test]
fn tier_factor_picks_first_admitting_tier() {
    let lb = nox_relay::config::LoadBalancingConfig::default();
    let first = lb.tiers[0];
    assert_eq!(lb.tier_factor(0), Some(first.tps_factor));
    assert_eq!(lb.tier_factor(usize::MAX), Some(lb.tiers[lb.tiers.len() - 1].tps_factor));
}

#[test]
fn transform_reset_bit_never_stored() {
    let mut t = PlayerTransforms::new();
    let tr = Transform::default();
    t.set(3, POSITION | RESET, tr, true);
    assert_eq!(t.iter(), vec![(3, POSITION, tr)]);
    t.set(3, ROTATION | RESET, tr, false);
    assert_eq!(t.iter(), vec![(3, POSITION | ROTATION, tr)]);
    t.set(3, ROTATION, tr, true);
    assert_eq!(t.iter(), vec![(3, ROTATION, tr)]);
    t.set(4, POSITION, tr, false);
    let mut rigs: Vec<u16> = t.iter().iter().map(|e| e.0).collect();
    rigs.sort();
    assert_eq!(rigs, vec![3, 4]);
}

#[test]
fn adaptive_settings_follow_the_switch() {
    let mut lb = nox_relay::config::LoadBalancingConfig::default();
    let mut inst = Instance::new(0, 1);
    let (base_tps, base_threshold) = (inst.tps, inst.threshold);
    lb.enabled = false;
    assert!(!inst.lb_enabled(&lb));
    assert_eq!(inst.update_adaptive_settings(&lb, 5, 7, false), (base_tps, base_threshold, true));
    assert_eq!(inst.update_adaptive_settings(&lb, 5, 7, false), (base_tps, base_threshold, false));
    inst.load_balancing_enabled = Some(true);
    assert!(inst.lb_enabled(&lb));
    assert_eq!(inst.update_adaptive_settings(&lb, 5, 7, false), (5, 7, true));
    assert_eq!(inst.update_adaptive_settings(&lb, 5, 8, false), (5, 8, false));
    assert_eq!(inst.update_adaptive_settings(&lb, 5, 9, true), (5, 9, true));
    assert_eq!(inst.effective_settings(), (Some(5), Some(9)));
}
