use bevy_game::items::{all_items, BattleModifier, BattleModifiers, Inventory, Item};
use bevy_game::team::Team;

#[test]
fn inventory_add_and_remove_last() {
    let mut inventory = Inventory::default();
    assert!(inventory.is_empty());
    inventory.add(Item::AxeShrooms);
    inventory.add(Item::CeleryQuartz);
    inventory.add(Item::AxeShrooms);
    assert_eq!(inventory.count(Item::AxeShrooms), 2);
    inventory.remove_last(Item::AxeShrooms);
    assert_eq!(inventory.items(), &vec![Item::AxeShrooms, Item::CeleryQuartz]);
    assert_eq!(inventory.count(Item::AxeShrooms), 1);
}

#[test]
fn inventory_remove_last_of_absent_item_changes_nothing() {
    let mut inventory = Inventory::default();
    inventory.add(Item::CeleryQuartz);
    inventory.remove_last(Item::FrostyWebStrands);
    assert_eq!(inventory.items(), &vec![Item::CeleryQuartz]);
}

#[test]
fn inventory_add_then_remove_last_gives_back_inventory() {
    let mut inventory = Inventory::default();
    inventory.add(Item::BogHardWeeds);
    inventory.add(Item::FiremanderSalts);
    let before = inventory.items().clone();
    inventory.add(Item::SquirtBlopBerries);
    inventory.remove_last(Item::SquirtBlopBerries);
    assert_eq!(inventory.items(), &before);
}

#[test]
fn inventory_remove_by_index() {
    let mut inventory = Inventory::default();
    inventory.add(Item::CracklingMoss);
    inventory.add(Item::AxeShrooms);
    inventory.remove(0);
    assert_eq!(inventory.items(), &vec![Item::AxeShrooms]);
    assert!(!inventory.is_empty());
}

#[test]
fn item_texts() {
    assert_eq!(Item::CracklingMoss.name(), "Crackling Moss");
    assert_eq!(Item::FrostyWebStrands.name(), "Frosty Web-Strands");
    assert_eq!(Item::BogHardWeeds.index(), 4);
    assert_eq!(Item::CracklingMoss.index(), 0);
    assert_eq!(Item::BogHardWeeds.side_effect(), "Some units become sick and unusable \nnext battle.");
    assert!(!Item::AxeShrooms.skin_name().is_empty());
    assert!(!Item::AxeShrooms.positive_effect().is_empty());
}

#[test]
fn item_modifiers_effect_then_side_effect() {
    assert_eq!(Item::BogHardWeeds.modifiers(), vec![BattleModifier::ExtraDefense, BattleModifier::Sickness]);
    assert_eq!(Item::FiremanderSalts.modifiers(), vec![BattleModifier::Fire, BattleModifier::Combustion]);
    assert_eq!(Item::AxeShrooms.modifiers(), vec![BattleModifier::ExtraAttack, BattleModifier::FriendlyFire]);
}

#[test]
fn all_items_in_declaration_order() {
    let items = all_items();
    assert_eq!(items.len(), 7);
    for (i, item) in items.iter().enumerate() {
        assert_eq!(item.index(), i);
    }
}

#[test]
fn battle_modifiers_set_and_get() {
    let mut m = BattleModifiers::new();
    assert!(!m.get(BattleModifier::Fire));
    m.set(BattleModifier::Fire, true);
    assert!(m.get(BattleModifier::Fire));
    assert!(!m.get(BattleModifier::Ice));
    m.set(BattleModifier::Fire, false);
    assert!(!m.get(BattleModifier::Fire));
    assert_eq!(BattleModifier::FriendlyFire.name(), "Friendly Fire");
    assert_eq!(BattleModifier::Slowness.index(), 13);
}

#[test]
fn opposite_team_swaps_sides() {
    assert_eq!(Team::Friendly.opposite_team(), Team::Enemy);
    assert_eq!(Team::Enemy.opposite_team(), Team::Friendly);
}

#[test]
fn team_flags_hurt_only_the_other_side() {
    let f = Team::Friendly;
    let e = Team::Enemy;
    assert!(f.hurt_flags().intersects(e.hit_flags()));
    assert!(!f.hurt_flags().intersects(f.hit_flags()));
    assert!(e.hurt_flags().intersects(f.hit_flags()));
    assert!(!e.hurt_flags().intersects(e.hit_flags()));
    assert_eq!(f.hit_flags().bits(), 1);
    assert_eq!(e.hit_flags().bits(), 2);
    assert_eq!(f.move_direction_sign(), 1);
    assert_eq!(e.move_direction_sign(), -1);
}

#[test]
fn skin_names_drop_spaces_and_hyphens() {
    for item in [
        Item::CracklingMoss,
        Item::SquirtBlopBerries,
        Item::FiremanderSalts,
        Item::AxeShrooms,
        Item::BogHardWeeds,
        Item::CeleryQuartz,
        Item::FrostyWebStrands,
    ] {
        assert_eq!(item.skin_name(), item.name().replace(' ', "").replace('-', ""));
    }
}

#[test]
fn counts_add_up_to_the_inventory() {
    let mut inv = Inventory::default();
    let all = [
        Item::CracklingMoss,
        Item::SquirtBlopBerries,
        Item::FiremanderSalts,
        Item::AxeShrooms,
        Item::BogHardWeeds,
        Item::CeleryQuartz,
        Item::FrostyWebStrands,
    ];
    assert!(all.iter().all(|i| inv.count(*i) == 0));
    inv.add(Item::AxeShrooms);
    inv.add(Item::AxeShrooms);
    inv.add(Item::CeleryQuartz);
    let total: usize = all.iter().map(|i| inv.count(*i)).sum();
    assert_eq!(total, inv.items().len());
    assert!(!inv.is_empty());
}
