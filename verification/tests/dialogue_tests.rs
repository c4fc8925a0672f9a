use bevy_game::articy::{ArticyDialogue, ArticyDialogueInstruction, ArticyDialogueKind, ArticyDialogueNode, ArticyId};
use bevy_game::dialogue::{portrait_skin, Dialogue, DialogueAction, Script, Speaker, SpeakerKind};
use bevy_game::vars::GlobalVariables;

fn id(s: &str) -> ArticyId {
    ArticyId::new(s.to_owned())
}

fn ids(v: &[&str]) -> Vec<ArticyId> {
    v.iter().map(|s| id(s)).collect()
}

fn message(speaker: Speaker, text: &str, next: &[&str]) -> ArticyDialogueNode {
    ArticyDialogueNode { kind: ArticyDialogueKind::Message { speaker, text: text.to_owned() }, children: ids(next) }
}

fn graph(nodes: Vec<(&str, ArticyDialogueNode)>, start: &[&str]) -> ArticyDialogue {
    ArticyDialogue { nodes: nodes.into_iter().map(|(k, n)| (id(k), n)).collect(), children: ids(start) }
}

fn text_of(d: &Dialogue) -> Option<(Speaker, String)> {
    match d.action() {
        Some(DialogueAction::Text { speaker, text, .. }) => Some((*speaker, text.clone())),
        _ => None,
    }
}

#[test]
fn queued_script_shows_its_first_line() {
    let g = graph(vec![("a", message(Speaker::General, "Hello", &["b"])), ("b", message(Speaker::Player, "Hi", &[]))], &["a"]);
    let mut d = Dialogue::new();
    let vars = GlobalVariables::new();
    assert!(!d.active());
    assert!(d.queue(Script::new(g), &vars));
    assert!(d.active());
    assert_eq!(text_of(&d), Some((Speaker::General, "Hello".to_owned())));
    assert_eq!(d.active_speaker(), Speaker::General);
    assert!(d.continue_text(&vars));
    assert_eq!(text_of(&d), Some((Speaker::Player, "Hi".to_owned())));
    assert!(d.continue_text(&vars));
    assert!(!d.active());
    assert_eq!(d.active_speaker(), Speaker::NoOne);
}

#[test]
fn several_lines_become_a_choice() {
    let g = graph(
        vec![
            ("a", message(Speaker::General, "Pick", &["x", "y"])),
            ("x", message(Speaker::Player, "Left", &["l"])),
            ("y", message(Speaker::Player, "Right", &[])),
            ("l", message(Speaker::General, "You went left", &[])),
        ],
        &["a"],
    );
    let mut d = Dialogue::new();
    let vars = GlobalVariables::new();
    d.queue(Script::new(g), &vars);
    assert!(d.continue_text(&vars));
    match d.action() {
        Some(DialogueAction::Choice { choices }) => {
            assert_eq!(choices.len(), 2);
            assert_eq!(choices[0].0, "Left");
            assert_eq!(choices[1].0, "Right");
        }
        _ => panic!("expected a choice"),
    }
    assert_eq!(d.active_speaker(), Speaker::Player);
    assert!(d.pick_choice(7, &vars));
    assert!(matches!(d.action(), Some(DialogueAction::Choice { .. })));
    assert!(d.pick_choice(0, &vars));
    assert_eq!(text_of(&d), Some((Speaker::General, "You went left".to_owned())));
}

#[test]
fn instructions_are_recorded_and_conditions_pick_a_child() {
    let g = graph(
        vec![
            (
                "i",
                ArticyDialogueNode {
                    kind: ArticyDialogueKind::Instruction { instructions: vec![ArticyDialogueInstruction::AddFood(4)] },
                    children: ids(&["c"]),
                },
            ),
            (
                "c",
                ArticyDialogueNode {
                    kind: ArticyDialogueKind::Condition { variable: "Met".to_owned(), equals: true },
                    children: ids(&["yes", "no"]),
                },
            ),
            ("yes", message(Speaker::General, "Again!", &[])),
            ("no", message(Speaker::General, "Welcome", &[])),
        ],
        &["i"],
    );
    let mut vars = GlobalVariables::new();
    vars.insert("Met".to_owned(), false);
    let mut d = Dialogue::new();
    assert!(d.queue(Script::new(g), &vars));
    assert_eq!(text_of(&d), Some((Speaker::General, "Welcome".to_owned())));
    let events = d.take_events();
    assert_eq!(events.len(), 1);
    assert!(matches!(events[0].instruction, ArticyDialogueInstruction::AddFood(4)));
    assert!(d.take_events().is_empty());
}

#[test]
fn mixed_nodes_make_an_invalid_dialogue_line() {
    let g = graph(
        vec![
            ("a", message(Speaker::General, "Pick", &["x", "h"])),
            ("x", message(Speaker::Player, "Left", &[])),
            ("h", ArticyDialogueNode { kind: ArticyDialogueKind::Noop, children: vec![] }),
        ],
        &["a"],
    );
    let mut d = Dialogue::new();
    let vars = GlobalVariables::new();
    d.queue(Script::new(g), &vars);
    d.continue_text(&vars);
    assert_eq!(text_of(&d), Some((Speaker::NoOne, "INVALID DIALOGUE".to_owned())));
}

#[test]
fn second_script_waits_and_follows() {
    let g1 = graph(vec![("a", message(Speaker::General, "First", &[]))], &["a"]);
    let g2 = graph(vec![("b", message(Speaker::General, "Second", &[]))], &["b"]);
    let mut d = Dialogue::new();
    let vars = GlobalVariables::new();
    d.queue(Script::new(g1), &vars);
    assert!(d.queue(Script::new(g2), &vars));
    assert_eq!(text_of(&d), Some((Speaker::General, "First".to_owned())));
    d.continue_text(&vars);
    assert_eq!(text_of(&d), Some((Speaker::General, "Second".to_owned())));
    d.continue_text(&vars);
    assert!(!d.active());
}

#[test]
fn missing_node_leaves_script_queued_and_nothing_shown() {
    let g = graph(vec![("a", message(Speaker::General, "First", &["nowhere"]))], &["zzz"]);
    let mut d = Dialogue::new();
    let vars = GlobalVariables::new();
    assert!(!d.queue(Script::new(g), &vars));
    assert!(!d.active());
}

#[test]
fn missing_variable_refuses_to_show() {
    let g = graph(
        vec![(
            "c",
            ArticyDialogueNode {
                kind: ArticyDialogueKind::Condition { variable: "Unknown".to_owned(), equals: true },
                children: ids(&[]),
            },
        )],
        &["c"],
    );
    let mut d = Dialogue::new();
    assert!(!d.queue(Script::new(g), &GlobalVariables::new()));
}

#[test]
fn clear_takes_everything_off_screen() {
    let g = graph(vec![("a", message(Speaker::General, "First", &[]))], &["a"]);
    let mut d = Dialogue::new();
    let vars = GlobalVariables::new();
    d.queue(Script::new(g), &vars);
    d.clear();
    assert!(!d.active());
    assert!(d.action().is_none());
}

#[test]
fn speakers() {
    assert_eq!(Speaker::General.speaker_kind(), SpeakerKind::Friendly);
    assert_eq!(Speaker::WarChef3.speaker_kind(), SpeakerKind::Enemy);
    assert_eq!(Speaker::Mobling.speaker_kind(), SpeakerKind::Unit);
    assert_eq!(Speaker::WarChef2.name(), "Field Marshal Toothsy");
    assert_eq!(Speaker::NoOne.name(), "");
    assert_eq!(portrait_skin(Speaker::WarChef1), Some("wc1"));
    assert_eq!(portrait_skin(Speaker::Narrator), None);
}

#[test]
fn pressing_on_first_types_the_line_out() {
    let g = graph(vec![("a", message(Speaker::General, "Hello there", &["b"])), ("b", message(Speaker::Player, "Hi", &[]))], &["a"]);
    let mut d = Dialogue::new();
    let vars = GlobalVariables::new();
    d.queue(Script::new(g), &vars);
    // Five of eleven bytes shown: the line stays.
    assert_eq!(d.press_on(5, &vars), None);
    assert_eq!(text_of(&d), Some((Speaker::General, "Hello there".to_owned())));
    // All of it shown: the dialogue moves on.
    assert_eq!(d.press_on(11, &vars), Some(true));
    assert_eq!(text_of(&d), Some((Speaker::Player, "Hi".to_owned())));
    assert_eq!(d.press_on(99999, &vars), Some(true));
    assert!(!d.active());
    assert_eq!(d.press_on(99999, &vars), None);
}
