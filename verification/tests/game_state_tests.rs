use bevy_game::app_state::AppState;
use bevy_game::articy::{Articy, ArticyDialogue, ArticyDialogueInstruction, ArticyDialogueKind, ArticyDialogueNode, ArticyId};
use bevy_game::battle::{Banner, BattleReport};
use bevy_game::game_state::{GameState, Intel, Loot, PersistentGameState, RewindState};
use bevy_game::items::{BattleModifier, Item};
use bevy_game::units::{UnitComposition, UnitKind};

fn army(p: usize, w: usize, a: usize, m: usize, b: usize) -> UnitComposition {
    UnitComposition { peasants: p, warriors: w, archers: a, mages: m, brutes: b }
}

#[test]
fn checkpoint_then_load_gives_back_state() {
    let mut g = GameState::new();
    g.food = 12;
    g.checkpoint();
    g.food = 3;
    g.available_army = army(1, 0, 0, 0, 0);
    g.load_checkpoint();
    assert_eq!(g.food, 12);
    assert_eq!(g.available_army, army(0, 0, 0, 0, 0));
    assert!(g.checkpoint.is_none());
}

#[test]
fn load_without_checkpoint_changes_nothing() {
    let mut g = GameState::new();
    g.food = 5;
    g.load_checkpoint();
    assert_eq!(g.food, 5);
}

#[test]
fn rewind_goes_back_two_checkpoints() {
    let mut g = GameState::new();
    g.food = 1;
    g.checkpoint();
    g.food = 2;
    assert!(!g.can_rewind());
    g.checkpoint();
    g.food = 3;
    assert!(g.can_rewind());
    g.rewind();
    assert_eq!(g.food, 1);
    assert!(g.checkpoint.is_none());
}

#[test]
fn rewind_with_one_checkpoint_drops_it() {
    let mut g = GameState::new();
    g.food = 1;
    g.checkpoint();
    g.food = 2;
    g.rewind();
    assert_eq!(g.food, 2);
    assert!(g.checkpoint.is_none());
}

#[test]
fn fed_army_joins_available_army() {
    let mut g = GameState::new();
    g.available_army = army(1, 1, 0, 0, 0);
    g.fed_army = army(2, 0, 1, 0, 0);
    let fed = g.get_and_reset_fed_army();
    assert_eq!(fed, army(2, 0, 1, 0, 0));
    assert_eq!(g.available_army, army(3, 1, 1, 0, 0));
    assert_eq!(g.fed_army, army(0, 0, 0, 0, 0));
}

#[test]
fn sickness_rolls_split_each_kind() {
    let mut g = GameState::new();
    g.available_army = army(10, 1, 3, 0, 5);
    g.sick_army = army(2, 0, 0, 0, 0);
    g.apply_sickness_rolls(true, [0, 0, 1, 0, 9]);
    assert_eq!(g.sick_army, army(2, 0, 2, 0, 4));
    assert_eq!(g.available_army, army(10, 1, 1, 0, 1));
    g.apply_sickness_rolls(false, [0; 5]);
    assert_eq!(g.sick_army, army(0, 0, 0, 0, 0));
    assert_eq!(g.available_army, army(12, 1, 3, 0, 5));
}

#[test]
fn random_sickness_keeps_every_unit() {
    let mut g = GameState::new();
    g.available_army = army(20, 4, 6, 1, 0);
    g.apply_sickness(true);
    for k in [UnitKind::Peasant, UnitKind::Warrior, UnitKind::Archer, UnitKind::Mage, UnitKind::Brute] {
        let total = g.available_army.get_count(k) + g.sick_army.get_count(k);
        let sick = g.sick_army.get_count(k);
        assert_eq!(total, army(20, 4, 6, 1, 0).get_count(k));
        if total > 1 {
            assert!(sick >= 2.min(total - 1));
            assert!(sick <= (total / 2).max(2).min(total - 1));
        } else {
            assert_eq!(sick, 0);
        }
    }
}

#[test]
fn dialogue_instructions_change_the_game() {
    let mut g = GameState::new();
    g.apply_instruction(&ArticyDialogueInstruction::AddUnits(UnitKind::Archer, 3));
    g.apply_instruction(&ArticyDialogueInstruction::SubtractUnits(UnitKind::Archer, 1));
    g.apply_instruction(&ArticyDialogueInstruction::AddFood(7));
    g.apply_instruction(&ArticyDialogueInstruction::SubtractFood(10));
    g.apply_instruction(&ArticyDialogueInstruction::AddItem(Item::CeleryQuartz));
    g.apply_instruction(&ArticyDialogueInstruction::SetGlobalVariable("Met".to_owned(), true));
    assert_eq!(g.available_army.archers, 2);
    assert_eq!(g.food, 0);
    assert_eq!(g.inventory.items(), &vec![Item::CeleryQuartz]);
    assert_eq!(g.global_variables.get(&"Met".to_owned()), Some(true));
}

#[test]
fn battle_preparation() {
    let mut g = GameState::new();
    g.available_army = army(5, 0, 0, 0, 0);
    g.fed_army = army(3, 1, 0, 0, 0);
    g.consumed_items = vec![Item::FiremanderSalts, Item::BogHardWeeds];
    g.quest.war_chef = 3;
    g.quest.battle = 2;
    g.intel.can_see = [true; 5];
    let config = g.prepare_battle();
    assert_eq!(config.friendly_units, army(3, 1, 0, 0, 0));
    assert!(config.friendly_modifiers.get(BattleModifier::Fire));
    assert!(config.friendly_modifiers.get(BattleModifier::Sickness));
    assert!(!config.friendly_modifiers.get(BattleModifier::Ice));
    assert_eq!(config.friendly_banner, Banner::Player);
    assert_eq!(config.enemy_banner, Banner::WarChef4);
    assert_eq!(config.enemy_units, army(10, 1, 0, 1, 0));
    assert!(config.enemy_modifiers.get(BattleModifier::Combustion));
    assert_eq!(g.used_items, vec![Item::FiremanderSalts, Item::BogHardWeeds]);
    assert!(g.consumed_items.is_empty());
    assert_eq!(g.global_variables.get(&"UsedBogHardWeed".to_owned()), Some(true));
    assert_eq!(g.intel.can_see, [false; 5]);
    assert_eq!(g.available_army.peasants + g.sick_army.peasants, 8);
    assert!(g.sick_army.peasants >= 2);
}

#[test]
fn won_battle_moves_quest_on_and_checkpoints() {
    let mut g = GameState::new();
    g.available_army = army(5, 2, 0, 0, 0);
    g.quest.battle = 2;
    let report = BattleReport { dead_units: army(2, 3, 0, 0, 0), victory: true };
    assert_eq!(g.on_battle_ended(&report), AppState::GameIntermission);
    assert_eq!(g.available_army, army(3, 0, 0, 0, 0));
    assert_eq!((g.quest.war_chef, g.quest.battle), (1, 0));
    assert!(g.checkpoint.is_some());
    let lost = BattleReport { dead_units: army(1, 0, 0, 0, 0), victory: false };
    assert_eq!(g.on_battle_ended(&lost), AppState::GameRewind);
    assert_eq!(g.available_army, army(3, 0, 0, 0, 0));
}

#[test]
fn planning_ended_choices() {
    let mut g = GameState::new();
    assert_eq!(g.on_planning_ended(false, false), AppState::GameBattle);
    assert_eq!(g.on_planning_ended(false, true), AppState::GameIntermission);
    assert_eq!(g.quest.battle, 1);
    g.food = 9;
    assert_eq!(g.on_planning_ended(true, true), AppState::GameRewind);
    assert!(g.checkpoint.is_some());
}

#[test]
fn rewind_screen_lists_checkpoints_oldest_first() {
    let mut g = GameState::new();
    g.food = 1;
    g.checkpoint();
    g.food = 2;
    g.checkpoint();
    g.food = 3;
    let mut stages = g.enter_rewind();
    assert_eq!(stages.len(), 2);
    assert_eq!(stages.stage(0).food, 1);
    assert_eq!(stages.stage(1).food, 2);
    assert_eq!(stages.selected(), 1);
    assert!(!stages.progress_lost());
    stages.select(0);
    assert!(stages.progress_lost());
    stages.select(5);
    assert_eq!(stages.selected(), 0);
    let back = stages.confirm();
    assert_eq!(back.food, 1);
    assert!(back.checkpoint.is_some());
    let slots = stages.stage_slots();
    assert_eq!(slots.len(), 17);
    assert!(slots[0].enabled && slots[0].selected);
    assert!(slots[1].enabled && !slots[1].selected);
    assert!(!slots[2].enabled);
    assert_eq!((slots[3].row, slots[3].column), (1, 0));
    assert_eq!((slots[16].row, slots[16].column), (4, 2));
}

#[test]
fn rewind_screen_without_checkpoint_takes_one() {
    let mut g = GameState::new();
    g.food = 4;
    let stages = g.enter_rewind();
    assert_eq!(stages.len(), 1);
    assert_eq!(stages.stage(0).food, 4);
    assert!(g.checkpoint.is_some());
    assert_eq!(RewindState::new().len(), 0);
}

#[test]
fn loot_summary_lines() {
    let mut loot = Loot::new();
    assert!(loot.entries().is_empty());
    loot.add_food(5);
    loot.add_units(UnitKind::Warrior, -2);
    loot.add_items(Item::AxeShrooms, 1);
    assert_eq!(loot.entries(), vec![("Food", 5), ("Stabby-Rats", -2), ("Axe Shrooms", 1)]);
    loot.reset();
    assert!(loot.entries().is_empty());
}

#[test]
fn loot_summary_texts() {
    let mut loot = Loot::new();
    assert!(loot.summary().is_empty());
    loot.add_food(120);
    loot.add_units(UnitKind::Warrior, -2);
    assert_eq!(
        loot.summary(),
        vec![
            "Loot Get\n".to_owned(),
            "Food: ".to_owned(),
            "+120\n".to_owned(),
            "Stabby-Rats: ".to_owned(),
            "-2\n".to_owned(),
        ]
    );
    loot.add_food(-120);
    loot.add_units(UnitKind::Warrior, 2);
    assert!(loot.summary().is_empty());
}

#[test]
fn persistent_state_and_intel() {
    let mut p = PersistentGameState::default();
    assert!(p.take_rewind_screen_dialogue());
    assert!(!p.take_rewind_screen_dialogue());
    assert_eq!(p.show_tutorial, [true; 4]);
    assert_eq!(Intel::default().can_see, [false; 5]);
}

fn one_line_dialogue() -> ArticyDialogue {
    ArticyDialogue {
        nodes: vec![(
            ArticyId::new("a".to_owned()),
            ArticyDialogueNode {
                kind: ArticyDialogueKind::Message { speaker: bevy_game::dialogue::Speaker::General, text: "Hi".to_owned() },
                children: vec![],
            },
        )],
        children: vec![ArticyId::new("a".to_owned())],
    }
}

#[test]
fn intermission_adds_food_and_plays_new_item_dialogues() {
    let mut articy = Articy::new();
    for name in ["BogHardWeeds", "CeleryQuartz", "WC1B2"] {
        articy.insert_dialogue(name.to_owned(), one_line_dialogue());
    }
    let mut g = GameState::new();
    g.quest.battle = 1;
    g.used_items = vec![Item::BogHardWeeds, Item::FiremanderSalts, Item::BogHardWeeds, Item::CeleryQuartz];
    let scripts = g.enter_intermission(&articy);
    assert_eq!(scripts.len(), 3);
    assert_eq!(g.food, 15);
    let scripts_again = g.enter_intermission(&articy);
    assert_eq!(scripts_again.len(), 1);
    assert_eq!(g.food, 30);
}

#[test]
fn variables_read_back_what_was_set() {
    let mut vars = bevy_game::vars::GlobalVariables::new();
    vars.insert("A".to_owned(), true);
    vars.insert("B".to_owned(), false);
    vars.insert("A".to_owned(), false);
    assert_eq!(vars.get(&"A".to_owned()), Some(false));
    assert_eq!(vars.get(&"B".to_owned()), Some(false));
    assert_eq!(vars.get(&"C".to_owned()), None);
    assert_eq!(vars.entries().len(), 2);
    assert_eq!(vars.duplicate().get(&"A".to_owned()), Some(false));
}

#[test]
fn new_campaign_starts_from_a_checkpoint_with_project_variables() {
    let mut articy = Articy::new();
    let mut vars = bevy_game::vars::GlobalVariables::new();
    vars.insert("Met".to_owned(), true);
    articy.set_global_variables(vars);
    let mut g = GameState::start_campaign(&articy);
    assert_eq!(g.global_variables.get(&"Met".to_owned()), Some(true));
    assert!(g.checkpoint.is_some());
    g.food = 40;
    g.load_checkpoint();
    assert_eq!(g.food, 0);
    assert_eq!(g.global_variables.get(&"Met".to_owned()), Some(true));
}
