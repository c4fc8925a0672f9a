use bevy_game::articy_graph::{ArticyError, ArticyModel};
use bevy_game::plain_articy::{parse_dialogue, DialogueKind};

fn node_model(model_type: &str, id: &str, text: Option<&str>, next: Option<&[&str]>) -> ArticyModel {
    ArticyModel {
        model_type: model_type.to_owned(),
        id: Some(id.to_owned()),
        technical_name: None,
        text: text.map(|t| t.to_owned()),
        speaker: None,
        expression: None,
        target: None,
        display_name: None,
        input_pins: None,
        output_pins: next.map(|n| vec![Some(n.iter().map(|t| t.to_string()).collect())]),
    }
}

fn start(targets: &[&str]) -> Vec<Option<Vec<String>>> {
    vec![Some(targets.iter().map(|t| t.to_string()).collect())]
}

#[test]
fn plain_graph_of_a_message_and_an_instruction() {
    let models = vec![
        node_model("DialogueFragment", "a", Some("Hello"), Some(&["b"])),
        node_model("Instruction", "b", Some("AddFood(1)"), Some(&[])),
    ];
    let d = parse_dialogue(&start(&["a"]), &models).unwrap();
    assert_eq!(d.children, vec!["a".to_owned()]);
    assert_eq!(d.nodes.len(), 2);
    // The node after `a` is stored first.
    assert_eq!(d.nodes[0].0, "b");
    assert!(matches!(d.nodes[0].1.kind, DialogueKind::Instruction));
    assert!(d.nodes[0].1.children.is_empty());
    assert_eq!(d.nodes[1].0, "a");
    match &d.nodes[1].1.kind {
        DialogueKind::Message { text } => assert_eq!(text, "Hello"),
        DialogueKind::Instruction => panic!("expected a message"),
    }
    assert_eq!(d.nodes[1].1.children, vec!["b".to_owned()]);
}

#[test]
fn plain_graph_refuses_an_unknown_type() {
    let models = vec![node_model("Jump", "a", Some("x"), Some(&[]))];
    assert!(matches!(parse_dialogue(&start(&["a"]), &models), Err(ArticyError::UnknownType(t)) if t == "Jump"));
}

#[test]
fn plain_graph_needs_output_pins() {
    let models = vec![node_model("DialogueFragment", "a", Some("Hi"), None)];
    assert!(matches!(
        parse_dialogue(&start(&["a"]), &models),
        Err(ArticyError::MissingProperty(t)) if t == "DialogueFragment"
    ));
}

#[test]
fn plain_graph_needs_an_input_pin_and_models() {
    let models: Vec<ArticyModel> = Vec::new();
    assert!(matches!(parse_dialogue(&Vec::new(), &models), Err(ArticyError::NoInputPin)));
    assert!(matches!(
        parse_dialogue(&start(&["zz"]), &models),
        Err(ArticyError::MissingModel(id)) if id == "zz"
    ));
}

#[test]
fn plain_graph_shares_a_node_reached_twice() {
    let models = vec![
        node_model("DialogueFragment", "a", Some("One"), Some(&["c"])),
        node_model("DialogueFragment", "b", Some("Two"), Some(&["c"])),
        node_model("Instruction", "c", Some("AddFood(1)"), Some(&[])),
    ];
    let d = parse_dialogue(&start(&["a", "b"]), &models).unwrap();
    let ids: Vec<&str> = d.nodes.iter().map(|(id, _)| id.as_str()).collect();
    assert_eq!(ids, vec!["c", "a", "b"]);
}
