use bevy_game::units::{all_unit_kinds, Attack, DamageKind, DefenseKind, HurtBoxKind, UnitComposition, UnitKind};

fn army(p: usize, w: usize, a: usize, m: usize, b: usize) -> UnitComposition {
    UnitComposition { peasants: p, warriors: w, archers: a, mages: m, brutes: b }
}

#[test]
fn add_then_subtract_gives_back_army() {
    let a = army(3, 1, 0, 2, 0);
    let b = army(1, 4, 5, 0, 1);
    let mut sum = a;
    sum.add_units(&b);
    assert_eq!(sum, army(4, 5, 5, 2, 1));
    assert_eq!(sum.total_units(), a.total_units() + b.total_units());
    sum.subtract_units(&b);
    assert_eq!(sum, a);
}

#[test]
fn subtract_never_goes_below_zero() {
    let mut a = army(3, 1, 0, 0, 0);
    a.subtract_units(&army(5, 1, 2, 0, 0));
    assert_eq!(a, army(0, 0, 0, 0, 0));
}

#[test]
fn counts_by_kind() {
    let mut a = UnitComposition::empty();
    a.set_count(UnitKind::Mage, 7);
    assert_eq!(a.get_count(UnitKind::Mage), 7);
    assert_eq!(a.get_count(UnitKind::Brute), 0);
    a.mutate_count(UnitKind::Mage, |n| n * 2);
    assert_eq!(a.get_count(UnitKind::Mage), 14);
    assert_eq!(UnitComposition::default(), UnitComposition::empty());
}

#[test]
fn unit_stats_and_names() {
    assert_eq!(UnitKind::Peasant.stats().cost, 1);
    assert_eq!(UnitKind::Warrior.stats().cost, 5);
    assert_eq!(UnitKind::Archer.stats().cost, 3);
    assert_eq!(UnitKind::Mage.stats().cost, 10);
    assert_eq!(UnitKind::Brute.stats().cost, 15);
    assert_eq!(UnitKind::Warrior.stats().defense_kind, DefenseKind::Armor);
    assert!(UnitKind::Archer.stats().attributes.may_retreat);
    assert_eq!(UnitKind::Peasant.name(), "Mobling");
    assert_eq!(UnitKind::Peasant.name_plural(), "Moblings");
    assert_eq!(all_unit_kinds(), vec![UnitKind::Peasant, UnitKind::Warrior, UnitKind::Archer, UnitKind::Mage, UnitKind::Brute]);
}

#[test]
fn attack_stats() {
    let s = Attack::Claw.stats();
    assert_eq!(s.hit_count, 3);
    assert_eq!(s.damage_kind, DamageKind::Flesh);
    assert_eq!(s.hurt_box_kind, HurtBoxKind::OffsetRect);
    assert_eq!(Attack::Arrow.stats().hurt_box_kind, HurtBoxKind::Projectile);
    assert_eq!(Attack::Magic.stats().hurt_box_kind, HurtBoxKind::AreaOfEffect);
}

#[test]
fn damage_multiplier_in_halves() {
    assert_eq!(DamageKind::Flesh.damage_multiplier(DefenseKind::Flesh), 2);
    assert_eq!(DamageKind::Flesh.damage_multiplier(DefenseKind::Armor), 1);
    assert_eq!(DamageKind::Sword.damage_multiplier(DefenseKind::Flesh), 4);
    assert_eq!(DamageKind::Sword.damage_multiplier(DefenseKind::Armor), 2);
    assert_eq!(DamageKind::Arrow.damage_multiplier(DefenseKind::Armor), 4);
    assert_eq!(DamageKind::Magic.damage_multiplier(DefenseKind::Flesh), 4);
}
