use vstd::prelude::*;

use crate::articy_graph::{
    copy_strings, find_model, lemma_model_position, missing_property, model_lookup, models_view,
    pins_view, str_is, ArticyError, ArticyModel, ErrorView, ModelView,
};
use crate::vars::{key_lookup, key_position, lemma_key_absent, lemma_key_position, lemma_key_position_at};

verus! {

/// What a node of a plain dialogue graph is: a line of text, or an
/// instruction (whose effect the plain reader does not look at).
#[derive(Debug)]
pub enum DialogueKind {
    Message { text: String },
    Instruction,
}

/// A plain node kind as a mathematical value.
pub enum PlainKindView {
    Message { text: Seq<char> },
    Instruction,
}

impl View for DialogueKind {
    type V = PlainKindView;

    open spec fn view(&self) -> PlainKindView {
        match self {
            DialogueKind::Message { text } => PlainKindView::Message { text: text@ },
            DialogueKind::Instruction => PlainKindView::Instruction,
        }
    }
}

/// A node of a plain dialogue graph and the nodes it leads to.
#[derive(Debug)]
pub struct DialogueNode {
    pub kind: DialogueKind,
    pub children: Vec<String>,
}

/// A plain node as a mathematical value.
pub struct PlainNodeView {
    pub kind: PlainKindView,
    pub children: Seq<Seq<char>>,
}

impl View for DialogueNode {
    type V = PlainNodeView;

    open spec fn view(&self) -> PlainNodeView {
        PlainNodeView { kind: self.kind@, children: self.children@.map_values(|s: String| s@) }
    }
}

/// Plain nodes as mathematical values.
pub open spec fn plain_nodes_view(n: Seq<(String, DialogueNode)>) -> Seq<(Seq<char>, PlainNodeView)> {
    n.map_values(|e: (String, DialogueNode)| (e.0@, e.1@))
}

/// A plain dialogue graph: its nodes by identifier, and the nodes it starts
/// at.
#[derive(Debug)]
pub struct Dialogue {
    pub nodes: Vec<(String, DialogueNode)>,
    pub children: Vec<String>,
}

/// What a model makes of its plain node: a dialogue fragment (with an
/// identifier and a text) a line, an instruction (with an identifier and a
/// text) an instruction; any other model is an error.
pub open spec fn plain_kind_of(m: ModelView) -> Result<PlainKindView, ErrorView> {
    if m.model_type == "DialogueFragment"@ {
        if m.id is None || m.text is None {
            Err(ErrorView::MissingProperty(m.model_type))
        } else {
            Ok(PlainKindView::Message { text: m.text.unwrap() })
        }
    } else if m.model_type == "Instruction"@ {
        if m.id is None || m.text is None {
            Err(ErrorView::MissingProperty(m.model_type))
        } else {
            Ok(PlainKindView::Instruction)
        }
    } else {
        Err(ErrorView::UnknownType(m.model_type))
    }
}

/// The targets of a model's first output pin; a model without output pins
/// is an error.
pub open spec fn first_pin_targets(m: ModelView) -> Result<Seq<Seq<char>>, ErrorView> {
    match m.output_pins {
        None => Err(ErrorView::MissingProperty(m.model_type)),
        Some(p) => if p.len() == 0 {
            Err(ErrorView::MissingProperty(m.model_type))
        } else {
            match p[0] {
                Some(c) => Ok(c),
                None => Ok(Seq::empty()),
            }
        },
    }
}

/// The nodes after `node` is stored under `id`: replacing a node of that
/// identifier in place, or going at the end.
pub open spec fn plain_insert(nodes: Seq<(Seq<char>, PlainNodeView)>, id: Seq<char>, node: PlainNodeView) -> Seq<(Seq<char>, PlainNodeView)> {
    let p = key_position(nodes, id);
    if p >= 0 {
        nodes.update(p, (id, node))
    } else {
        nodes.push((id, node))
    }
}

/// The nodes after the node `id` and everything after it is added, going at
/// most `fuel` nodes deep: a node already there stays; otherwise its model
/// makes the node, the targets of its first output pin are added first, one
/// after the other, then the node itself.
pub open spec fn plain_build(nodes: Seq<(Seq<char>, PlainNodeView)>, id: Seq<char>, models: Seq<ModelView>, fuel: nat) -> Result<Seq<(Seq<char>, PlainNodeView)>, ErrorView>
    decreases fuel, 0nat,
{
    if key_lookup(nodes, id) is Some {
        Ok(nodes)
    } else if fuel == 0 {
        Err(ErrorView::Cycle)
    } else {
        match model_lookup(models, id) {
            None => Err(ErrorView::MissingModel(id)),
            Some(m) => match plain_kind_of(m) {
                Err(e) => Err(e),
                Ok(kind) => match first_pin_targets(m) {
                    Err(e) => Err(e),
                    Ok(t) => match plain_build_all(nodes, t, models, (fuel - 1) as nat) {
                        Err(e) => Err(e),
                        Ok(n) => Ok(plain_insert(n, id, PlainNodeView { kind, children: t })),
                    },
                },
            },
        }
    }
}

/// The nodes after each of the nodes `targets` and everything after them is
/// added, in order.
pub open spec fn plain_build_all(nodes: Seq<(Seq<char>, PlainNodeView)>, targets: Seq<Seq<char>>, models: Seq<ModelView>, fuel: nat) -> Result<Seq<(Seq<char>, PlainNodeView)>, ErrorView>
    decreases fuel, targets.len() + 1,
{
    if targets.len() == 0 {
        Ok(nodes)
    } else {
        match plain_build_all(nodes, targets.drop_last(), models, fuel) {
            Err(e) => Err(e),
            Ok(n) => plain_build(n, targets.last(), models, fuel),
        }
    }
}

/// The plain dialogue graph of a dialogue with input pins `input_pins`: it
/// starts at the targets of the first input pin, which must have
/// connections, and holds everything reachable from them, going at most as
/// deep as there are models.
pub open spec fn plain_graph(input_pins: Seq<Option<Seq<Seq<char>>>>, models: Seq<ModelView>) -> Result<(Seq<(Seq<char>, PlainNodeView)>, Seq<Seq<char>>), ErrorView> {
    if input_pins.len() == 0 {
        Err(ErrorView::NoInputPin)
    } else {
        match input_pins[0] {
            None => Err(ErrorView::MissingProperty("Dialogue"@)),
            Some(roots) => match plain_build_all(Seq::empty(), roots, models, (models.len() + 1) as nat) {
                Err(e) => Err(e),
                Ok(n) => Ok((n, roots)),
            },
        }
    }
}

/// Reaching nodes that the plain graph already holds adds nothing: it stays
/// as it was, whatever the models, and however deep the walk may still go.
pub proof fn law_plain_present_nodes_unchanged(nodes: Seq<(Seq<char>, PlainNodeView)>, targets: Seq<Seq<char>>, models: Seq<ModelView>, fuel: nat)
    requires
        forall|i: int| 0 <= i < targets.len() ==> key_lookup(nodes, #[trigger] targets[i]) is Some,
    ensures
        plain_build_all(nodes, targets, models, fuel) == Ok::<Seq<(Seq<char>, PlainNodeView)>, ErrorView>(nodes),
        forall|i: int| 0 <= i < targets.len() ==> plain_build(nodes, #[trigger] targets[i], models, fuel) == Ok::<
            Seq<(Seq<char>, PlainNodeView)>,
            ErrorView,
        >(nodes),
    decreases targets.len(),
{
    if targets.len() > 0 {
        let t = targets.drop_last();
        assert forall|i: int| 0 <= i < t.len() implies key_lookup(nodes, #[trigger] t[i]) is Some by {
            assert(t[i] == targets[i]);
        }
        law_plain_present_nodes_unchanged(nodes, t, models, fuel);
        assert(key_lookup(nodes, targets[targets.len() - 1]) is Some);
        assert(plain_build(nodes, targets.last(), models, fuel) == Ok::<Seq<(Seq<char>, PlainNodeView)>, ErrorView>(
            nodes,
        ));
        assert(plain_build_all(nodes, t, models, fuel) == Ok::<Seq<(Seq<char>, PlainNodeView)>, ErrorView>(nodes));
    }
}

/// When adding the first nodes already fails, adding all fails the same way.
proof fn lemma_plain_prefix_err(nodes: Seq<(Seq<char>, PlainNodeView)>, targets: Seq<Seq<char>>, k: int, models: Seq<ModelView>, fuel: nat)
    requires
        0 <= k <= targets.len(),
        plain_build_all(nodes, targets.take(k), models, fuel) is Err,
    ensures
        plain_build_all(nodes, targets, models, fuel) == plain_build_all(nodes, targets.take(k), models, fuel),
    decreases targets.len(),
{
    if k == targets.len() {
        assert(targets.take(k) =~= targets);
    } else {
        assert(targets.drop_last().take(k) =~= targets.take(k));
        lemma_plain_prefix_err(nodes, targets.drop_last(), k, models, fuel);
    }
}

/// The position of the node `id`, if it is there.
fn plain_position(nodes: &Vec<(String, DialogueNode)>, id: &String) -> (r: Option<usize>)
    ensures
        match r {
            Some(p) => key_position(plain_nodes_view(nodes@), id@) == p && p < nodes@.len(),
            None => key_position(plain_nodes_view(nodes@), id@) == -1,
        },
{
    let ghost nv = plain_nodes_view(nodes@);
    let mut i: usize = 0;
    while i < nodes.len()
        invariant
            i <= nodes@.len(),
            nv == plain_nodes_view(nodes@),
            nv.len() == nodes@.len(),
            forall|j: int| 0 <= j < i ==> nv[j].0 != id@,
        decreases nodes.len() - i,
    {
        assert(nv[i as int] == (nodes@[i as int].0@, nodes@[i as int].1@));
        if nodes[i].0 == *id {
            proof {
                lemma_key_position_at(nv, id@, i as int);
            }
            return Some(i);
        }
        i = i + 1;
    }
    proof {
        lemma_key_absent(nv, id@);
    }
    None
}

/// Adds the node `id` and everything after it (see `plain_build`).
fn plain_build_node(nodes: &mut Vec<(String, DialogueNode)>, id: &String, models: &Vec<ArticyModel>, fuel: usize) -> (r: Result<(), ArticyError>)
    ensures
        match plain_build(plain_nodes_view(old(nodes)@), id@, models_view(models@), fuel as nat) {
            Ok(n) => r is Ok && plain_nodes_view(final(nodes)@) == n,
            Err(e) => r matches Err(x) && x@ == e,
        },
    decreases fuel,
{
    let ghost mv = models_view(models@);
    let ghost start = plain_nodes_view(nodes@);
    proof {
        lemma_key_position(start, id@);
        lemma_model_position(mv, id@);
    }
    if plain_position(nodes, id).is_some() {
        return Ok(());
    }
    if fuel == 0 {
        return Err(ArticyError::Cycle);
    }
    let p = match find_model(models, id) {
        Some(p) => p,
        None => {
            return Err(ArticyError::MissingModel(id.clone()));
        },
    };
    let m = &models[p];
    assert(mv[p as int] == m@);
    let kind = if str_is(&m.model_type, "DialogueFragment") {
        match (&m.id, &m.text) {
            (Some(_), Some(t)) => DialogueKind::Message { text: t.clone() },
            _ => {
                return Err(missing_property(&m.model_type));
            },
        }
    } else if str_is(&m.model_type, "Instruction") {
        match (&m.id, &m.text) {
            (Some(_), Some(_)) => DialogueKind::Instruction,
            _ => {
                return Err(missing_property(&m.model_type));
            },
        }
    } else {
        return Err(ArticyError::UnknownType(m.model_type.clone()));
    };
    assert(plain_kind_of(m@) == Ok::<PlainKindView, ErrorView>(kind@));
    let targets: Vec<String> = match &m.output_pins {
        None => {
            return Err(missing_property(&m.model_type));
        },
        Some(pins) => {
            if pins.len() == 0 {
                return Err(missing_property(&m.model_type));
            }
            let t: Vec<String> = match &pins[0] {
                Some(c) => copy_strings(c),
                None => Vec::new(),
            };
            proof {
                assert(pins_view(m.output_pins).unwrap()[0] == pins_view(Some(*pins)).unwrap()[0]);
                if pins@[0] is None {
                    assert(t@.map_values(|s: String| s@) =~= Seq::<Seq<char>>::empty());
                }
            }
            assert(first_pin_targets(m@) == Ok::<Seq<Seq<char>>, ErrorView>(t@.map_values(|s: String| s@)));
            t
        },
    };
    let ghost tv = targets@.map_values(|s: String| s@);
    assert(first_pin_targets(m@) == Ok::<Seq<Seq<char>>, ErrorView>(tv));
    let mut i: usize = 0;
    assert(tv.take(0) =~= Seq::<Seq<char>>::empty());
    while i < targets.len()
        invariant
            i <= targets@.len(),
            tv == targets@.map_values(|s: String| s@),
            tv.len() == targets@.len(),
            mv == models_view(models@),
            fuel > 0,
            start == plain_nodes_view(old(nodes)@),
            key_lookup(start, id@) is None,
            model_lookup(mv, id@) == Some(m@),
            plain_kind_of(m@) is Ok,
            first_pin_targets(m@) == Ok::<Seq<Seq<char>>, ErrorView>(tv),
            plain_build_all(start, tv.take(i as int), mv, (fuel - 1) as nat) == Ok::<
                Seq<(Seq<char>, PlainNodeView)>,
                ErrorView,
            >(plain_nodes_view(nodes@)),
        decreases targets.len() - i,
    {
        assert(tv.take(i + 1).drop_last() =~= tv.take(i as int));
        assert(tv.take(i + 1).last() == targets@[i as int]@);
        match plain_build_node(nodes, &targets[i], models, fuel - 1) {
            Ok(()) => {},
            Err(e) => {
                proof {
                    lemma_plain_prefix_err(start, tv, i + 1, mv, (fuel - 1) as nat);
                }
                return Err(e);
            },
        }
        i = i + 1;
    }
    assert(tv.take(i as int) =~= tv);
    let children = copy_strings(&targets);
    let node = DialogueNode { kind, children };
    let ghost n = plain_nodes_view(nodes@);
    let ghost nodev = node@;
    assert(nodev == PlainNodeView { kind: kind@, children: tv });
    proof {
        lemma_key_position(n, id@);
    }
    match plain_position(nodes, id) {
        Some(q) => {
            nodes.set(q, (id.clone(), node));
            assert(plain_nodes_view(nodes@) =~= n.update(q as int, (id@, nodev)));
        },
        None => {
            nodes.push((id.clone(), node));
            assert(plain_nodes_view(nodes@) =~= n.push((id@, nodev)));
        },
    }
    Ok(())
}

/// The plain dialogue graph of a dialogue with input pins `input_pins` (see
/// `plain_graph`).
pub fn parse_dialogue(input_pins: &Vec<Option<Vec<String>>>, models: &Vec<ArticyModel>) -> (r: Result<Dialogue, ArticyError>)
    requires
        models@.len() < usize::MAX,
    ensures
        match plain_graph(pins_view(Some(*input_pins)).unwrap(), models_view(models@)) {
            Ok((nodes, roots)) => r matches Ok(d) && plain_nodes_view(d.nodes@) == nodes && d.children@.map_values(
                |s: String| s@,
            ) == roots,
            Err(e) => r matches Err(x) && x@ == e,
        },
{
    let ghost pv = pins_view(Some(*input_pins)).unwrap();
    let ghost mv = models_view(models@);
    if input_pins.len() == 0 {
        return Err(ArticyError::NoInputPin);
    }
    let roots: Vec<String> = match &input_pins[0] {
        Some(c) => copy_strings(c),
        None => {
            return Err(ArticyError::MissingProperty("Dialogue".to_owned()));
        },
    };
    let ghost rv = roots@.map_values(|s: String| s@);
    assert(pv[0] == Some(rv));
    let fuel = models.len() + 1;
    let mut nodes: Vec<(String, DialogueNode)> = Vec::new();
    assert(plain_nodes_view(nodes@) =~= Seq::<(Seq<char>, PlainNodeView)>::empty());
    let mut i: usize = 0;
    assert(rv.take(0) =~= Seq::<Seq<char>>::empty());
    while i < roots.len()
        invariant
            i <= roots@.len(),
            rv == roots@.map_values(|s: String| s@),
            rv.len() == roots@.len(),
            mv == models_view(models@),
            fuel == models@.len() + 1,
            pv == pins_view(Some(*input_pins)).unwrap(),
            pv.len() > 0,
            pv[0] == Some(rv),
            plain_build_all(Seq::empty(), rv.take(i as int), mv, fuel as nat) == Ok::<
                Seq<(Seq<char>, PlainNodeView)>,
                ErrorView,
            >(plain_nodes_view(nodes@)),
        decreases roots.len() - i,
    {
        assert(rv.take(i + 1).drop_last() =~= rv.take(i as int));
        assert(rv.take(i + 1).last() == roots@[i as int]@);
        match plain_build_node(&mut nodes, &roots[i], models, fuel) {
            Ok(()) => {},
            Err(e) => {
                proof {
                    lemma_plain_prefix_err(Seq::empty(), rv, i + 1, mv, fuel as nat);
                }
                return Err(e);
            },
        }
        i = i + 1;
    }
    assert(rv.take(i as int) =~= rv);
    Ok(Dialogue { nodes, children: roots })
}

} // verus!
