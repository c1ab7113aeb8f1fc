use agentkit::brain::combat::{
    is_pickup, CombatDriver, DangerDriver, EntityClass, JitterRng, Weapon, WeaponRequest,
};
use agentkit::brain::fsm::{BotSkill, BrainConfig, GoalKey, Q3Node, SentryBrain, StuckAction};
use agentkit::brain::kinds::{brain_tag, BrainKind};

#[test]
fn core_default_config_is_combat_on() {
    let cfg = BrainConfig::default();
    assert!(cfg.combat_enabled);
}

#[test]
fn main_default_config_is_combat_on() {
    let cfg = BrainConfig::default();
    assert!(cfg.combat_enabled);
}

#[test]
fn sentry_constructs_and_labels() {
    let s = SentryBrain::new(BotSkill::default());
    assert_eq!(s.status(), "sentry");
}

#[test]
fn combat_driver_starts_with_blaster() {
    let driver = CombatDriver::new();
    assert_eq!(driver.held_weapon(), Weapon::Blaster);
    assert!(driver.current_target.is_none());
}

#[test]
fn respawn_resets_to_blaster() {
    let mut driver = CombatDriver::new();
    driver.held_weapon = Weapon::RocketLauncher;
    driver.on_respawn();
    assert_eq!(driver.held_weapon(), Weapon::Blaster);
}

#[test]
fn sanity() {
    assert_eq!(2 + 2, 4);
}

#[test]
fn test_stuck_action_variants() {
    let action = StuckAction::Jump;
    assert_eq!(action, StuckAction::Jump);
}

#[test]
fn clear_target_drops_target_and_lock() {
    let mut d = CombatDriver::new();
    d.current_target = Some(7);
    d.lock_frames_remaining = 3;
    d.held_weapon = Weapon::Railgun;
    assert_eq!(d.target_entity(), Some(7));
    d.clear_target();
    assert_eq!(d.target_entity(), None);
    assert_eq!(d.lock_frames_remaining, 0);
    assert_eq!(d.held_weapon(), Weapon::Railgun);
}

#[test]
fn fresh_driver_fields() {
    let d = CombatDriver::default();
    assert_eq!(d.frames_since_shot, 10);
    assert_eq!(d.frames_since_switch, u32::MAX);
    assert_eq!(d.sight_frames, 0);
    assert_eq!(d.sight_grace_remaining, 0);
}

#[test]
fn pickups_are_the_item_classes() {
    assert!(is_pickup(EntityClass::ItemHealth));
    assert!(is_pickup(EntityClass::ItemArmor));
    assert!(is_pickup(EntityClass::ItemWeapon));
    assert!(is_pickup(EntityClass::ItemPowerup));
    assert!(!is_pickup(EntityClass::EnemyPlayer));
    assert!(!is_pickup(EntityClass::ProjectileRocket));
    assert!(!is_pickup(EntityClass::ProjectileGrenade));
    assert!(!is_pickup(EntityClass::Unknown));
}

#[test]
fn jitter_rng_seed_and_step() {
    let r = JitterRng::new(0);
    assert_eq!(r.state, 1);
    let r = JitterRng::new(1);
    assert_eq!(r.state, 2654435762u32);
    let mut r = JitterRng::new(0);
    let bits = r.next_bits();
    assert_eq!(r.state, 1u32.wrapping_mul(1664525).wrapping_add(1013904223));
    assert_eq!(bits, r.state >> 8);
}

#[test]
fn brain_tags_and_labels() {
    assert_eq!(brain_tag(BrainKind::Main), "main");
    assert_eq!(brain_tag(BrainKind::Sentry), "sentry");
    assert_eq!(brain_tag(BrainKind::RunTester), "runtester");
    assert_eq!(brain_tag(BrainKind::Quake3), "q3");
    assert_eq!(brain_tag(BrainKind::Zb2), "zb2");
    assert_eq!(brain_tag(BrainKind::Xon), "xon");
    assert_eq!(Q3Node::SeekLtg.label(), "seek-ltg");
    assert_eq!(Q3Node::BattleNbg.label(), "battle-nbg");
    assert_eq!(Q3Node::BattleFight.label(), "fight");
}

#[test]
fn small_value_types() {
    assert_eq!(DangerDriver::new(), DangerDriver::default());
    assert_eq!(WeaponRequest(Weapon::Shotgun).0, Weapon::Shotgun);
    assert_ne!(GoalKey::Item(1), GoalKey::Wander(1));
    assert_eq!(StuckAction::NoAction, StuckAction::NoAction);
}

#[test]
fn jitter_seeds_give_distinct_states() {
    let states: Vec<u32> = (0u32..1000).map(|s| JitterRng::new(s).state).collect();
    let mut sorted = states.clone();
    sorted.sort();
    sorted.dedup();
    assert_eq!(sorted.len(), states.len());
    assert_eq!(JitterRng::new(0).state, 1);
}
