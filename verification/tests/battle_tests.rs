use bevy_game::battle::{
    attack_plan, count_sides, distribute_hits, spawn_order, take_hits, unit_attack_plan, Banner, BattleConfig,
    BattlePhase, BattleState,
};
use bevy_game::flags::Attributes;
use bevy_game::items::{BattleModifier, BattleModifiers};
use bevy_game::team::Team;
use bevy_game::unit::{attack_pace, spawn_profile, spawn_unit_profile, swings, walks, combustion_candidates, AttackPace, SpeedMode};
use bevy_game::units::{Attack, DamageKind, DefenseKind, HurtBoxKind, UnitComposition, UnitKind};

fn army(p: usize, w: usize, a: usize, m: usize, b: usize) -> UnitComposition {
    UnitComposition { peasants: p, warriors: w, archers: a, mages: m, brutes: b }
}

#[test]
fn battle_runs_through_its_stages() {
    let mut s = BattleState::new();
    let mut config = BattleConfig::new();
    config.friendly_modifiers.set(BattleModifier::Fire, true);
    s.start(&config, false);
    assert!(s.battling());
    assert_eq!(s.phase(), BattlePhase::PreBattle);
    assert!(s.get_modifiers(Team::Friendly).get(BattleModifier::Fire));
    assert!(!s.get_modifiers(Team::Enemy).get(BattleModifier::Fire));
    assert_eq!(s.finish(3, 1, false), None);
    assert!(s.splash_ended().is_none());
    assert_eq!(s.phase(), BattlePhase::Battling);
    s.record_death(Team::Friendly, UnitKind::Archer);
    s.record_death(Team::Enemy, UnitKind::Archer);
    s.note_damage();
    assert!(s.damage_inflicted());
    assert_eq!(s.finish(3, 1, false), Some(true));
    assert_eq!(s.phase(), BattlePhase::End { victory: true });
    let report = s.splash_ended().unwrap();
    assert!(report.victory);
    assert_eq!(report.dead_units, army(0, 0, 1, 0, 0));
    assert!(!s.battling());
    assert_eq!(s.report().dead_units, army(0, 0, 0, 0, 0));
}

#[test]
fn victory_needs_more_units_and_no_brute() {
    let mut s = BattleState::new();
    s.start(&BattleConfig::new(), true);
    assert_eq!(s.phase(), BattlePhase::Battling);
    assert_eq!(s.finish(5, 1, true), Some(false));
    let mut s = BattleState::new();
    s.start(&BattleConfig::new(), true);
    assert_eq!(s.finish(2, 2, false), Some(false));
}

#[test]
fn deaths_count_only_while_battling() {
    let mut s = BattleState::new();
    s.record_death(Team::Friendly, UnitKind::Peasant);
    assert_eq!(s.report().dead_units, army(0, 0, 0, 0, 0));
    s.start(&BattleConfig::new(), true);
    s.stop();
    assert!(!s.battling());
}

#[test]
fn sides_are_counted_without_retreating_units() {
    let units = vec![
        (Team::Friendly, UnitKind::Peasant, false),
        (Team::Friendly, UnitKind::Warrior, true),
        (Team::Enemy, UnitKind::Brute, false),
        (Team::Enemy, UnitKind::Peasant, false),
    ];
    assert_eq!(count_sides(&units), (1, 2, true));
    assert_eq!(count_sides(&vec![(Team::Enemy, UnitKind::Brute, true)]), (0, 0, false));
}

#[test]
fn units_spawn_friendly_first_kind_by_kind() {
    let mut config = BattleConfig::default();
    config.friendly_units = army(1, 0, 2, 0, 0);
    config.enemy_units = army(0, 1, 0, 0, 0);
    assert_eq!(
        spawn_order(&config),
        vec![
            (Team::Friendly, UnitKind::Peasant),
            (Team::Friendly, UnitKind::Archer),
            (Team::Friendly, UnitKind::Archer),
            (Team::Enemy, UnitKind::Warrior),
        ]
    );
    assert_eq!(config.get_units(Team::Enemy), &army(0, 1, 0, 0, 0));
    assert_eq!(Banner::for_war_chef(0), Banner::WarChef1);
    assert_eq!(Banner::for_war_chef(9), Banner::WarChef5);
}

#[test]
fn attack_plans() {
    let mut m = BattleModifiers::new();
    let plain = attack_plan(Team::Friendly, Attributes::empty(), &m, Attack::Sword, true);
    assert_eq!(plain.damage_halves, 2);
    assert!(plain.hurt_flags.enemy && !plain.hurt_flags.friendly);
    assert_eq!(plain.damage_kind, DamageKind::Sword);
    m.set(BattleModifier::ExtraAttack, true);
    m.set(BattleModifier::FriendlyFire, true);
    m.set(BattleModifier::Ice, true);
    let wild = attack_plan(Team::Friendly, Attributes::empty(), &m, Attack::Arrow, true);
    assert_eq!(wild.damage_halves, 3);
    assert!(wild.hurt_flags.enemy && wild.hurt_flags.friendly);
    assert!(wild.damage_modifiers.ice && !wild.damage_modifiers.fire);
    assert_eq!(wild.hurt_box_kind, HurtBoxKind::Projectile);
    let calm = attack_plan(Team::Friendly, Attributes::empty(), &m, Attack::Arrow, false);
    assert!(!calm.hurt_flags.friendly);
    let random = unit_attack_plan(Team::Enemy, Attributes::empty(), &BattleModifiers::new(), Attack::Claw);
    assert!(random.hurt_flags.friendly && !random.hurt_flags.enemy);
    assert_eq!(random.max_hits, 3);
}

#[test]
fn hits_go_to_the_first_shuffled_candidates() {
    assert_eq!(take_hits(2, &vec![7, 8, 9]), (vec![7, 8], 0));
    assert_eq!(take_hits(5, &vec![7, 8]), (vec![7, 8], 3));
    assert_eq!(take_hits(0, &vec![7]), (vec![], 0));
    let (hit, left) = distribute_hits(2, vec![1, 2, 3, 4]);
    assert_eq!(hit.len(), 2);
    assert_eq!(left, 0);
    assert!(hit.iter().all(|h| [1, 2, 3, 4].contains(h)));
    assert_ne!(hit[0], hit[1]);
    let (mut all, left) = distribute_hits(9, vec![4, 5, 6]);
    all.sort();
    assert_eq!((all, left), (vec![4, 5, 6], 6));
}

#[test]
fn spawned_units_follow_their_side() {
    let mut m = BattleModifiers::new();
    m.set(BattleModifier::ExtraDefense, true);
    m.set(BattleModifier::ExtraSpeed, true);
    m.set(BattleModifier::Wet, true);
    let p = spawn_profile(Team::Enemy, UnitKind::Warrior, &m, true);
    assert_eq!(p.defense_thirds, 9);
    assert_eq!(p.speed_quarters, 12);
    assert_eq!(p.speed_slow_quarters, 6);
    assert!(p.defense_modifiers.wet);
    assert_eq!(p.defense_kind, DefenseKind::Armor);
    assert!(!p.unit.blind);
    m.set(BattleModifier::Slowness, true);
    m.set(BattleModifier::Blindness, true);
    let q = spawn_profile(Team::Enemy, UnitKind::Warrior, &m, true);
    assert_eq!((q.speed_quarters, q.speed_slow_quarters), (6, 3));
    assert!(q.unit.blind);
    let r = spawn_unit_profile(Team::Friendly, UnitKind::Archer, &BattleModifiers::new());
    assert!(!r.unit.blind);
    assert!(r.unit.attributes.may_retreat);
}

#[test]
fn soldiers_behaviour() {
    let m = BattleModifiers::new();
    let mut u = spawn_profile(Team::Friendly, UnitKind::Archer, &m, false).unit;
    assert!(u.can_attack());
    assert_eq!(u.move_direction_sign(), 1);
    assert_eq!(u.speed_mode(true), SpeedMode::Slow);
    assert!(!u.hit_by_damage(false, &m));
    assert!(u.hit_by_damage(true, &m));
    assert!(!u.can_attack());
    assert_eq!(u.move_direction_sign(), -1);
    assert_eq!(u.speed_mode(true), SpeedMode::Retreat);
    let mut p = spawn_profile(Team::Enemy, UnitKind::Peasant, &m, false).unit;
    assert!(!p.hit_by_damage(true, &m));
    let mut cowardly = BattleModifiers::new();
    cowardly.set(BattleModifier::Cowardly, true);
    assert!(p.hit_by_damage(true, &cowardly));
    p.ignite();
    assert!(p.attributes.on_fire);
    assert!(walks(BattlePhase::Battling));
    assert!(!walks(BattlePhase::PreBattle));
    assert!(swings(&spawn_profile(Team::Enemy, UnitKind::Peasant, &m, false).unit, true, BattlePhase::Battling));
    assert!(!swings(&spawn_profile(Team::Enemy, UnitKind::Peasant, &m, false).unit, true, BattlePhase::PreBattle));
    let mut slow = BattleModifiers::new();
    slow.set(BattleModifier::Slowness, true);
    assert_eq!(attack_pace(&slow), AttackPace::Half);
    slow.set(BattleModifier::QuickAttack, true);
    assert_eq!(attack_pace(&slow), AttackPace::Normal);
    let units = vec![u, p, spawn_profile(Team::Enemy, UnitKind::Mage, &m, false).unit];
    assert_eq!(combustion_candidates(&units, Team::Enemy), vec![2]);
    assert_eq!(combustion_candidates(&units, Team::Friendly), vec![0]);
}
