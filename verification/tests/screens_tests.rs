use bevy_game::app_state::{in_game_state, not_in_game_state_or_sandbox, AppState, FramesToLive, InteractionMode, InteractionStack};
use bevy_game::clickable::Clickable;
use bevy_game::cutscene::Cutscene;
use bevy_game::game_state::{GameState, PersistentGameState};
use bevy_game::items::Item;
use bevy_game::planning::{
    button_active, button_image, button_info, button_sound, hint_info, planning_items, planning_tutorial, tutorial_dialogue,
    tutorial_index, PlanningButtonKind, PlanningState,
};
use bevy_game::quest::Quest;
use bevy_game::sfx::{music_cues, BattleJingleEvent, MusicCues, Sfx, SfxKind};
use bevy_game::units::{UnitComposition, UnitKind};

#[test]
fn game_screens() {
    assert!(AppState::GameBattle.is_game_state());
    assert!(!AppState::MainMenu.is_game_state());
    assert!(!in_game_state(AppState::Sandbox));
    assert!(not_in_game_state_or_sandbox(AppState::MainMenu));
    assert!(!not_in_game_state_or_sandbox(AppState::Sandbox));
    assert_eq!(AppState::variants().len(), 7);
    assert_eq!(AppState::default(), AppState::MainMenu);
}

#[test]
fn dialogue_takes_input_first() {
    let mut s = InteractionStack::new();
    assert!(s.can_interact(InteractionMode::Dialogue));
    assert!(!s.can_interact(InteractionMode::Game));
    s.set_wants_interaction(InteractionMode::Dialogue, false);
    assert!(s.can_interact(InteractionMode::Game));
    assert!(!s.can_interact(InteractionMode::Dialogue));
}

#[test]
fn frames_to_live_count_down() {
    let mut f = FramesToLive::new(1);
    assert!(!f.tick());
    assert!(f.tick());
    assert!(f.tick());
    assert_eq!(f.frames, 0);
}

#[test]
fn a_click_is_press_then_release_over_it() {
    let mut c = Clickable::new();
    c.update(true, false, false);
    assert!(c.just_hovered());
    c.update(true, true, false);
    assert!(c.just_clicked());
    assert!(!c.confirmed);
    c.update(true, false, true);
    assert!(c.confirmed);
    assert!(c.just_released());
    c.update(true, true, false);
    c.update(false, false, true);
    assert!(!c.confirmed);
    assert!(!c.clicked);
}

#[test]
fn sound_queue_and_jingles() {
    let mut sfx = Sfx::new();
    sfx.play(SfxKind::UiButtonClick);
    sfx.play(SfxKind::JingleVictory);
    let q = sfx.take_queue();
    assert_eq!(q, vec![(SfxKind::UiButtonClick, None), (SfxKind::JingleVictory, Some(BattleJingleEvent::Victory))]);
    assert!(sfx.take_queue().is_empty());
    assert_eq!(SfxKind::all().len(), 20);
}

#[test]
fn cutscenes_step_through_scenes() {
    let mut intro = Cutscene::intro();
    let first = intro.next(false);
    assert_eq!(first.animation, Some((1, "scene2")));
    assert!(first.play_sound);
    assert!(intro.shows_subtitle(1));
    for _ in 0..4 {
        intro.next(true);
    }
    assert_eq!(intro.next(true).animation, Some((5, "out")));
    let past = intro.next(false);
    assert_eq!(past.animation, None);
    assert!(!past.play_sound);
    let mut outro = Cutscene::outro();
    assert_eq!(outro.next(true).animation, Some((2, "scene2")));
    assert!(!outro.next(true).play_sound);
}

#[test]
fn quest_tables() {
    let mut q = Quest::new();
    assert_eq!(q.enemy_unit_composition(), UnitComposition { peasants: 3, warriors: 0, archers: 0, mages: 0, brutes: 0 });
    assert_eq!(q.hint(), "Glut Rattan's small mobling force approaches!");
    assert_eq!(q.preplanning_dialogue_name(), Some("WC1B1"));
    q.next();
    q.next();
    q.next();
    assert_eq!((q.war_chef, q.battle), (1, 0));
    q.war_chef = 2;
    q.battle = 3;
    assert_eq!(q.enemy_unit_composition().brutes, 1);
    assert_eq!(q.hint(), "The ground shakes from Rattin Hood's final combatant!");
    q.war_chef = 4;
    q.battle = 0;
    assert!(q.enemy_modifiers().get(bevy_game::items::BattleModifier::Wet));
    assert_eq!(q.preplanning_dialogue_name(), None);
    q.war_chef = 7;
    assert_eq!(q.hint(), "??");
    assert_eq!(q.enemy_unit_composition(), UnitComposition::empty());
}

#[test]
fn item_dialogues_play_once() {
    let mut q = Quest::new();
    assert_eq!(q.item_dialogue(Item::CeleryQuartz), Some("CeleryQuartz"));
    assert_eq!(q.item_dialogue(Item::CeleryQuartz), None);
    assert_eq!(q.item_dialogue(Item::FiremanderSalts), None);
    q.war_chef = 1;
    q.battle = 2;
    assert_eq!(q.item_dialogue(Item::BogHardWeeds), None);
}

#[test]
fn planning_rules() {
    let mut g = GameState::new();
    g.food = 6;
    g.available_army = UnitComposition { peasants: 1, warriors: 1, archers: 0, mages: 0, brutes: 0 };
    assert!(button_active(&g, PlanningButtonKind::Unit(UnitKind::Warrior)));
    assert!(!button_active(&g, PlanningButtonKind::Unit(UnitKind::Archer)));
    assert!(!button_active(&g, PlanningButtonKind::Noop));
    assert!(button_active(&g, PlanningButtonKind::Item(Item::AxeShrooms)));
    assert!(g.feed_unit(UnitKind::Warrior));
    assert_eq!(g.food, 1);
    assert_eq!(g.fed_army.warriors, 1);
    assert_eq!(g.available_army.warriors, 0);
    assert!(!g.feed_unit(UnitKind::Warrior));
    assert!(g.feed_unit(UnitKind::Peasant));
    assert!(!g.feed_unit(UnitKind::Peasant));
    g.inventory.add(Item::AxeShrooms);
    g.inventory.add(Item::CeleryQuartz);
    g.inventory.add(Item::AxeShrooms);
    assert_eq!(planning_items(&g), vec![Item::AxeShrooms, Item::CeleryQuartz]);
    g.use_item(Item::AxeShrooms);
    assert_eq!(g.consumed_items, vec![Item::AxeShrooms]);
    assert_eq!(g.inventory.items(), &vec![Item::AxeShrooms, Item::CeleryQuartz]);
    assert!(!button_active(&g, PlanningButtonKind::Item(Item::CeleryQuartz)));
    assert_eq!(button_image(2, true, true, true), 16);
    assert_eq!(button_image(2, false, true, true), 9);
    assert_eq!(button_image(2, true, true, false), 2);
}

#[test]
fn tutorials_and_start_blockers() {
    let mut g = GameState::new();
    g.available_army.peasants = 2;
    assert_eq!(tutorial_dialogue(&g), Some("Tutorial1"));
    g.available_army.peasants = 0;
    assert_eq!(tutorial_dialogue(&g), Some("MustFeedUnits"));
    g.fed_army.peasants = 2;
    assert_eq!(tutorial_dialogue(&g), None);
    g.quest.battle = 2;
    g.inventory.add(Item::CeleryQuartz);
    assert_eq!(tutorial_dialogue(&g), Some("Tutorial3"));
    let mut planning = PlanningState::new();
    planning.planning = true;
    assert_eq!(planning.confirm_start(&g), Some("Tutorial3"));
    assert!(!planning.start);
    let g2 = GameState::new();
    let mut fed = g2;
    fed.fed_army.archers = 1;
    assert_eq!(planning.confirm_start(&fed), None);
    assert!(planning.start);
    assert_eq!(planning.update(), Some((false, false)));
    assert_eq!(planning.update(), None);
    let mut q = Quest::new();
    q.war_chef = 1;
    assert_eq!(tutorial_index(&q), Some(3));
    let mut p = PersistentGameState::new();
    assert_eq!(planning_tutorial(&q, &mut p), Some("Tutorial4"));
    assert_eq!(planning_tutorial(&q, &mut p), None);
    q.war_chef = 2;
    assert_eq!(planning_tutorial(&q, &mut p), None);
}

#[test]
fn planning_ends_with_rewind_before_skip() {
    let mut planning = PlanningState { planning: true, start: false, skip: true, rewind: true };
    assert_eq!(planning.update(), Some((false, true)));
    planning.stop();
    assert!(!planning.planning);
}

#[test]
fn music_follows_the_screen() {
    assert_eq!(
        music_cues(AppState::GameBattle),
        MusicCues { tracks_play: true, battle_track: true, muffled: false, ambient_cauldron: false, ambient_battle: true }
    );
    assert_eq!(
        music_cues(AppState::MainMenu),
        MusicCues { tracks_play: false, battle_track: false, muffled: false, ambient_cauldron: false, ambient_battle: true }
    );
    assert_eq!(
        music_cues(AppState::GamePlanning),
        MusicCues { tracks_play: true, battle_track: false, muffled: false, ambient_cauldron: true, ambient_battle: false }
    );
    assert!(music_cues(AppState::GameRewind).muffled);
    assert!(!music_cues(AppState::Sandbox).tracks_play);
    assert_eq!(BattleJingleEvent::Start.quiet_seconds(), 2);
    assert_eq!(BattleJingleEvent::Victory.quiet_seconds(), 5);
    assert_eq!(BattleJingleEvent::Defeat.quiet_seconds(), 5);
}

#[test]
fn button_sounds() {
    assert_eq!(button_sound(false, true, true, true), None);
    assert_eq!(button_sound(true, true, true, true), Some(SfxKind::UiButtonClick));
    assert_eq!(button_sound(true, false, true, true), Some(SfxKind::UiButtonHover));
    assert_eq!(button_sound(true, false, false, true), Some(SfxKind::UiButtonRelease));
    assert_eq!(button_sound(true, false, false, false), None);
}

#[test]
fn info_box_texts() {
    let item = button_info(PlanningButtonKind::Item(Item::AxeShrooms));
    assert_eq!(item.len(), 5);
    assert_eq!(item[0], format!("{}\n", Item::AxeShrooms.name()));
    assert_eq!(item[1], "Effect: ");
    assert_eq!(item[2], format!("{}\n", Item::AxeShrooms.positive_effect()));
    assert_eq!(item[3], "Side Effect: ");
    assert_eq!(item[4], Item::AxeShrooms.side_effect());
    assert_eq!(
        button_info(PlanningButtonKind::Unit(UnitKind::Warrior)),
        vec!["Stabby-Rat\n".to_owned(), "Food Cost: ".to_owned(), "5".to_owned()]
    );
    assert!(button_info(PlanningButtonKind::Noop).is_empty());
    let q = Quest::default();
    assert_eq!(hint_info(&q, false, false), Vec::<String>::new());
    assert_eq!(
        hint_info(&q, false, true),
        vec!["Battle Hint\n".to_owned(), "Hold left mouse button to see hint".to_owned()]
    );
    assert_eq!(
        hint_info(&q, true, true),
        vec!["Battle Hint\n".to_owned(), "Glut Rattan's small mobling force approaches!".to_owned()]
    );
}

#[test]
fn default_campaign_state_is_new() {
    let g = GameState::default();
    assert_eq!(g.food, 0);
    assert!(g.checkpoint.is_none());
    assert!(g.inventory.is_empty());
}
