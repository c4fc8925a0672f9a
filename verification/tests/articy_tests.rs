use bevy_game::articy::{
    parse_condition, parse_condition_checked, parse_instructions, parse_instructions_checked,
    ArticyDialogueInstruction, ArticyDialogueKind, ArticyId,
};
use bevy_game::articy_graph::{load_project, parse_bool_value, parse_dialogue, speaker_from_display_name, ArticyError, ArticyModel};
use bevy_game::dialogue::Speaker;
use bevy_game::items::Item;
use bevy_game::units::UnitKind;

#[test]
fn instructions_parse_in_order() {
    let v = parse_instructions("AddUnits(\"Peasant\", 5); AddFood(10); Game.Met = true;");
    assert_eq!(v.len(), 3);
    assert!(matches!(v[0], ArticyDialogueInstruction::AddUnits(UnitKind::Peasant, 5)));
    assert!(matches!(v[1], ArticyDialogueInstruction::AddFood(10)));
    match &v[2] {
        ArticyDialogueInstruction::SetGlobalVariable(name, value) => {
            assert_eq!(name, "Met");
            assert!(*value);
        }
        _ => panic!("expected a variable assignment"),
    }
}

#[test]
fn instruction_kinds() {
    let v = parse_instructions("SubtractUnits(\"Warrior\", 2);SubtractFood(3);AddItem(\"Crackling Moss\")");
    assert!(matches!(v[0], ArticyDialogueInstruction::SubtractUnits(UnitKind::Warrior, 2)));
    assert!(matches!(v[1], ArticyDialogueInstruction::SubtractFood(3)));
    assert!(matches!(v[2], ArticyDialogueInstruction::AddItem(Item::CracklingMoss)));
}

#[test]
fn malformed_instructions_are_refused() {
    assert!(parse_instructions_checked("Explode(3)").is_none());
    assert!(parse_instructions_checked("AddUnits(\"Dragon\", 1)").is_none());
    assert!(parse_instructions_checked("Game.Met = maybe").is_none());
    assert!(parse_instructions_checked("").map(|v| v.len()) == Some(0));
}

#[test]
fn conditions_parse() {
    assert_eq!(parse_condition("Game.Met == true"), ("Met".to_owned(), true));
    assert_eq!(parse_condition("Game.Met == false;"), ("Met".to_owned(), false));
    assert_eq!(parse_condition_checked("Met == true"), None);
}

#[test]
fn speakers_by_display_name() {
    assert_eq!(speaker_from_display_name(&"War Chef".to_owned()), Some(Speaker::Player));
    assert_eq!(speaker_from_display_name(&"Narrator".to_owned()), Some(Speaker::Narrator));
    assert_eq!(speaker_from_display_name(&"Nobody".to_owned()), None);
}

#[test]
fn boolean_values_ignore_case() {
    assert_eq!(parse_bool_value(&"TRUE".to_owned()), Some(true));
    assert_eq!(parse_bool_value(&"False".to_owned()), Some(false));
    assert_eq!(parse_bool_value(&"yes".to_owned()), None);
}

fn model(model_type: &str, id: &str) -> ArticyModel {
    ArticyModel {
        model_type: model_type.to_owned(),
        id: Some(id.to_owned()),
        technical_name: None,
        text: None,
        speaker: None,
        expression: None,
        target: None,
        display_name: None,
        input_pins: None,
        output_pins: None,
    }
}

fn pins(targets: &[&str]) -> Option<Vec<Option<Vec<String>>>> {
    Some(vec![Some(targets.iter().map(|t| t.to_string()).collect())])
}

fn fragment(id: &str, speaker: &str, text: &str, next: &[&str]) -> ArticyModel {
    let mut m = model("DialogueFragment", id);
    m.speaker = Some(speaker.to_owned());
    m.text = Some(text.to_owned());
    m.output_pins = pins(next);
    m
}

fn sample_models() -> Vec<ArticyModel> {
    let mut chef = model("DefaultSupportingCharacterTemplate", "chef");
    chef.display_name = Some("War Chef".to_owned());
    let mut instr = model("Instruction", "i1");
    instr.text = Some("".to_owned());
    instr.expression = Some("AddFood(5)".to_owned());
    instr.output_pins = pins(&["f2"]);
    vec![
        chef,
        fragment("f1", "chef", "Hello", &["i1"]),
        instr,
        fragment("f2", "0x0000000000000000", "Bye", &[]),
    ]
}

#[test]
fn dialogue_graph_from_models() {
    let models = sample_models();
    let d = parse_dialogue(&vec![Some(vec!["f1".to_owned()])], &models).unwrap();
    assert_eq!(d.children.len(), 1);
    assert_eq!(d.children[0].as_str(), "f1");
    assert_eq!(d.nodes.len(), 3);
    for i in 0..d.nodes.len() {
        for j in (i + 1)..d.nodes.len() {
            assert!(!d.nodes[i].0.same(&d.nodes[j].0));
        }
    }
    let f1 = d.find_node(&ArticyId::new("f1".to_owned())).unwrap();
    match &d.nodes[f1].1.kind {
        ArticyDialogueKind::Message { speaker, text } => {
            assert_eq!(*speaker, Speaker::Player);
            assert_eq!(text, "Hello");
        }
        _ => panic!("expected a message"),
    }
    let i1 = d.find_node(&ArticyId::new("i1".to_owned())).unwrap();
    assert!(matches!(d.nodes[i1].1.kind, ArticyDialogueKind::Instruction { .. }));
    assert_eq!(d.nodes[i1].1.children[0].as_str(), "f2");
    let f2 = d.find_node(&ArticyId::new("f2".to_owned())).unwrap();
    match &d.nodes[f2].1.kind {
        ArticyDialogueKind::Message { speaker, .. } => assert_eq!(*speaker, Speaker::NoOne),
        _ => panic!("expected a message"),
    }
}

#[test]
fn dialogue_graph_errors() {
    let models = sample_models();
    assert!(matches!(parse_dialogue(&vec![], &models), Err(ArticyError::NoInputPin)));
    assert!(matches!(parse_dialogue(&vec![Some(vec!["zz".to_owned()])], &models), Err(ArticyError::MissingModel(_))));
    let mut odd = sample_models();
    odd.push(model("Painting", "p1"));
    assert!(matches!(parse_dialogue(&vec![Some(vec!["p1".to_owned()])], &odd), Err(ArticyError::UnknownType(_))));
    let mut lost = sample_models();
    lost.push(fragment("f9", "ghost", "Boo", &[]));
    assert!(matches!(parse_dialogue(&vec![Some(vec!["f9".to_owned()])], &lost), Err(ArticyError::MissingSpeaker(_))));
    let mut stranger = model("DefaultSupportingCharacterTemplate", "x");
    stranger.display_name = Some("Stranger".to_owned());
    let mut strange = sample_models();
    strange.push(stranger);
    strange.push(fragment("f8", "x", "Hi", &[]));
    assert!(matches!(parse_dialogue(&vec![Some(vec!["f8".to_owned()])], &strange), Err(ArticyError::UnknownSpeaker(_))));
    let mut bad = model("Instruction", "b1");
    bad.text = Some("".to_owned());
    bad.expression = Some("Explode()".to_owned());
    let mut with_bad = sample_models();
    with_bad.push(bad);
    assert!(matches!(parse_dialogue(&vec![Some(vec!["b1".to_owned()])], &with_bad), Err(ArticyError::InvalidInstructions(_))));
    let mut cond = model("Condition", "c1");
    cond.expression = Some("Met".to_owned());
    let mut with_cond = sample_models();
    with_cond.push(cond);
    assert!(matches!(parse_dialogue(&vec![Some(vec!["c1".to_owned()])], &with_cond), Err(ArticyError::InvalidCondition(_))));
    let mut bare = sample_models();
    bare.push(model("DialogueFragment", "f7"));
    assert!(matches!(parse_dialogue(&vec![Some(vec!["f7".to_owned()])], &bare), Err(ArticyError::MissingProperty(_))));
}

#[test]
fn a_circle_of_nodes_is_an_error() {
    let mut hub_a = model("Hub", "a");
    hub_a.output_pins = pins(&["b"]);
    let mut hub_b = model("Hub", "b");
    hub_b.output_pins = pins(&["a"]);
    let models = vec![hub_a, hub_b];
    assert!(matches!(parse_dialogue(&vec![Some(vec!["a".to_owned()])], &models), Err(ArticyError::Cycle)));
}

#[test]
fn jumps_lead_to_their_target_first() {
    let mut jump = model("Jump", "j");
    jump.target = Some("f2".to_owned());
    jump.output_pins = pins(&["f1"]);
    let mut models = sample_models();
    models.push(jump);
    let d = parse_dialogue(&vec![Some(vec!["j".to_owned()])], &models).unwrap();
    let j = d.find_node(&ArticyId::new("j".to_owned())).unwrap();
    let children: Vec<&str> = d.nodes[j].1.children.iter().map(|c| c.as_str()).collect();
    assert_eq!(children, vec!["f2", "f1"]);
    assert!(d.find_node(&ArticyId::new("f2".to_owned())).is_some());
}

#[test]
fn project_loads_default_packages_and_game_variables() {
    let mut dialogue = model("Dialogue", "d1");
    dialogue.technical_name = Some("Intro".to_owned());
    dialogue.input_pins = Some(vec![Some(vec!["f1".to_owned()])]);
    let mut models = sample_models();
    models.push(dialogue);
    let mut other = model("Dialogue", "d2");
    other.technical_name = Some("Hidden".to_owned());
    other.input_pins = Some(vec![None]);
    let packages = vec![(true, models), (false, vec![other])];
    let variables = vec![
        ("Game".to_owned(), vec![("Met".to_owned(), "Boolean".to_owned(), "False".to_owned())]),
        ("Other".to_owned(), vec![("X".to_owned(), "Integer".to_owned(), "3".to_owned())]),
    ];
    let articy = load_project(&packages, &variables).unwrap();
    assert!(articy.dialogue("Intro").is_some());
    assert!(articy.dialogue("Hidden").is_none());
    assert_eq!(articy.dialogue_names(), vec!["Intro".to_owned()]);
    assert_eq!(articy.global_variables().get(&"Met".to_owned()), Some(false));
}

#[test]
fn project_with_bad_variable_is_refused() {
    let variables = vec![("Game".to_owned(), vec![("X".to_owned(), "Integer".to_owned(), "3".to_owned())])];
    assert!(matches!(load_project(&vec![], &variables), Err(ArticyError::InvalidVariable(_))));
    let variables = vec![("Game".to_owned(), vec![("X".to_owned(), "Boolean".to_owned(), "maybe".to_owned())])];
    assert!(matches!(load_project(&vec![], &variables), Err(ArticyError::InvalidVariable(_))));
}

#[test]
fn add_item_by_display_name_round_trips() {
    for item in [
        Item::CracklingMoss,
        Item::SquirtBlopBerries,
        Item::FiremanderSalts,
        Item::AxeShrooms,
        Item::BogHardWeeds,
        Item::CeleryQuartz,
        Item::FrostyWebStrands,
    ] {
        let v = parse_instructions(&format!("AddItem(\"{}\")", item.name()));
        assert_eq!(v.len(), 1);
        assert!(matches!(v[0], ArticyDialogueInstruction::AddItem(i) if i == item));
    }
}
