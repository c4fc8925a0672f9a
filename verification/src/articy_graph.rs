use vstd::prelude::*;

use crate::articy::{
    dialogues_insert, Articy, ArticyView, DialogueGraphView, duplicate_ids, ids_view, instructions_view, nodes_view, parse_condition_checked,
    parse_condition_spec, parse_instructions_checked, parse_instructions_spec, ArticyDialogue,
    ArticyDialogueKind, ArticyDialogueNode, ArticyId, KindView, NodeView,
};
use crate::dialogue::Speaker;
use crate::text::{chars_eq_str, chars_of};
use crate::vars::{key_lookup, key_position, lemma_key_absent, lemma_key_position, lemma_key_position_at, var_insert};

verus! {

/// One model of an articy project as the loader reads it: its type and the
/// properties the dialogue graph is built from, each absent when the model
/// does not have it. `output_pins` lists, for each output pin, the targets of
/// its connections (absent when the pin has none); `input_pins` does the same
/// for a dialogue's input pins.
#[derive(Debug)]
pub struct ArticyModel {
    pub model_type: String,
    pub id: Option<String>,
    pub technical_name: Option<String>,
    pub text: Option<String>,
    pub speaker: Option<String>,
    pub expression: Option<String>,
    pub target: Option<String>,
    pub display_name: Option<String>,
    pub input_pins: Option<Vec<Option<Vec<String>>>>,
    pub output_pins: Option<Vec<Option<Vec<String>>>>,
}

/// Pins as mathematical values.
pub open spec fn pins_view(p: Option<Vec<Option<Vec<String>>>>) -> Option<Seq<Option<Seq<Seq<char>>>>> {
    match p {
        Some(v) => Some(
            v@.map_values(
                |pin: Option<Vec<String>>|
                    match pin {
                        Some(c) => Some(c@.map_values(|s: String| s@)),
                        None => None,
                    },
            ),
        ),
        None => None,
    }
}

/// A text property as a mathematical value.
pub open spec fn opt_view(o: Option<String>) -> Option<Seq<char>> {
    match o {
        Some(s) => Some(s@),
        None => None,
    }
}

/// A model as a mathematical value.
pub struct ModelView {
    pub model_type: Seq<char>,
    pub id: Option<Seq<char>>,
    pub technical_name: Option<Seq<char>>,
    pub text: Option<Seq<char>>,
    pub speaker: Option<Seq<char>>,
    pub expression: Option<Seq<char>>,
    pub target: Option<Seq<char>>,
    pub display_name: Option<Seq<char>>,
    pub input_pins: Option<Seq<Option<Seq<Seq<char>>>>>,
    pub output_pins: Option<Seq<Option<Seq<Seq<char>>>>>,
}

impl View for ArticyModel {
    type V = ModelView;

    open spec fn view(&self) -> ModelView {
        ModelView {
            model_type: self.model_type@,
            id: opt_view(self.id),
            technical_name: opt_view(self.technical_name),
            text: opt_view(self.text),
            speaker: opt_view(self.speaker),
            expression: opt_view(self.expression),
            target: opt_view(self.target),
            display_name: opt_view(self.display_name),
            input_pins: pins_view(self.input_pins),
            output_pins: pins_view(self.output_pins),
        }
    }
}

/// The models as mathematical values.
pub open spec fn models_view(m: Seq<ArticyModel>) -> Seq<ModelView> {
    m.map_values(|x: ArticyModel| x@)
}

/// Why a project could not be loaded.
#[derive(Debug)]
pub enum ArticyError {
    /// A dialogue has no input pin.
    NoInputPin,
    /// No model has this identifier.
    MissingModel(String),
    /// A model of this type lacks a property it needs.
    MissingProperty(String),
    /// A model has a type the dialogue graph does not know.
    UnknownType(String),
    /// No model is the speaker with this identifier.
    MissingSpeaker(String),
    /// A speaker has a display name no speaker has.
    UnknownSpeaker(String),
    /// An instruction's expression is malformed.
    InvalidInstructions(String),
    /// A condition's expression is malformed.
    InvalidCondition(String),
    /// A global variable has an unsupported type or value.
    InvalidVariable(String),
    /// The graph leads round in a circle.
    Cycle,
}

/// Why a project could not be loaded, as a mathematical value.
pub enum ErrorView {
    NoInputPin,
    MissingModel(Seq<char>),
    MissingProperty(Seq<char>),
    UnknownType(Seq<char>),
    MissingSpeaker(Seq<char>),
    UnknownSpeaker(Seq<char>),
    InvalidInstructions(Seq<char>),
    InvalidCondition(Seq<char>),
    InvalidVariable(Seq<char>),
    Cycle,
}

impl View for ArticyError {
    type V = ErrorView;

    open spec fn view(&self) -> ErrorView {
        match self {
            ArticyError::NoInputPin => ErrorView::NoInputPin,
            ArticyError::MissingModel(s) => ErrorView::MissingModel(s@),
            ArticyError::MissingProperty(s) => ErrorView::MissingProperty(s@),
            ArticyError::UnknownType(s) => ErrorView::UnknownType(s@),
            ArticyError::MissingSpeaker(s) => ErrorView::MissingSpeaker(s@),
            ArticyError::UnknownSpeaker(s) => ErrorView::UnknownSpeaker(s@),
            ArticyError::InvalidInstructions(s) => ErrorView::InvalidInstructions(s@),
            ArticyError::InvalidCondition(s) => ErrorView::InvalidCondition(s@),
            ArticyError::InvalidVariable(s) => ErrorView::InvalidVariable(s@),
            ArticyError::Cycle => ErrorView::Cycle,
        }
    }
}

/// Whether the text is the literal.
pub(crate) fn str_is(s: &String, lit: &str) -> (r: bool)
    ensures
        r == (s@ == lit@),
{
    *s == lit.to_owned()
}

/// The position of the last model with identifier `id`, or -1.
pub open spec fn model_position(models: Seq<ModelView>, id: Seq<char>) -> int
    decreases models.len(),
{
    if models.len() == 0 {
        -1
    } else if models.last().id == Some(id) {
        models.len() - 1
    } else {
        model_position(models.drop_last(), id)
    }
}

/// The last model with identifier `id`, if there is one.
pub open spec fn model_lookup(models: Seq<ModelView>, id: Seq<char>) -> Option<ModelView> {
    let p = model_position(models, id);
    if p >= 0 {
        Some(models[p])
    } else {
        None
    }
}

/// The last model with an identifier sits at its position, and no later
/// model has that identifier.
pub proof fn lemma_model_position(models: Seq<ModelView>, id: Seq<char>)
    ensures
        -1 <= model_position(models, id) < models.len(),
        model_position(models, id) >= 0 ==> models[model_position(models, id)].id == Some(id),
        forall|j: int| model_position(models, id) < j < models.len() ==> models[j].id != Some(id),
    decreases models.len(),
{
    if models.len() > 0 && models.last().id != Some(id) {
        lemma_model_position(models.drop_last(), id);
        assert forall|j: int| model_position(models, id) < j < models.len() implies models[j].id != Some(id) by {
            if j < models.len() - 1 {
                assert(models[j] == models.drop_last()[j]);
            }
        }
    }
}

/// The position of the last model with identifier `id`, if there is one.
pub(crate) fn find_model(models: &Vec<ArticyModel>, id: &String) -> (r: Option<usize>)
    ensures
        match r {
            Some(p) => model_position(models_view(models@), id@) == p && p < models@.len(),
            None => model_position(models_view(models@), id@) == -1,
        },
{
    let ghost mv = models_view(models@);
    let mut i: usize = models.len();
    assert(mv.take(mv.len() as int) =~= mv);
    while i > 0
        invariant
            i <= models@.len(),
            mv == models_view(models@),
            mv.len() == models@.len(),
            model_position(mv, id@) == model_position(mv.take(i as int), id@),
        decreases i,
    {
        let ghost pre = mv.take(i as int);
        assert(pre.drop_last() =~= mv.take(i - 1));
        assert(pre.last() == models@[i - 1]@);
        let found = match &models[i - 1].id {
            Some(x) => *x == *id,
            None => false,
        };
        if found {
            return Some(i - 1);
        }
        i = i - 1;
    }
    assert(mv.take(0) =~= Seq::<ModelView>::empty());
    None
}

/// The speaker whose display name is `name`.
pub open spec fn speaker_named(name: Seq<char>) -> Option<Speaker> {
    if name == "War Chef"@ {
        Some(Speaker::Player)
    } else if name == "General Ratso"@ {
        Some(Speaker::General)
    } else if name == "Glut Rattan"@ {
        Some(Speaker::WarChef1)
    } else if name == "Field Marshal Toothsy"@ {
        Some(Speaker::WarChef2)
    } else if name == "Rattin Hood"@ {
        Some(Speaker::WarChef3)
    } else if name == "Archmage Ratus"@ {
        Some(Speaker::WarChef4)
    } else if name == "Chompers the Barbarian"@ {
        Some(Speaker::WarChef5)
    } else if name == "Mobling"@ {
        Some(Speaker::Mobling)
    } else if name == "Stabby-Rat"@ {
        Some(Speaker::StabbyRat)
    } else if name == "Shooty-Rat"@ {
        Some(Speaker::ShootyRat)
    } else if name == "Scoutling"@ {
        Some(Speaker::Scoutling)
    } else if name == "Deserter"@ {
        Some(Speaker::Deserter)
    } else if name == "Blasty-Rat"@ {
        Some(Speaker::BlastyRat)
    } else if name == "Narrator"@ {
        Some(Speaker::Narrator)
    } else {
        None
    }
}

/// The speaker whose display name is `name` (see `speaker_named`).
pub fn speaker_from_display_name(name: &String) -> (r: Option<Speaker>)
    ensures
        r == speaker_named(name@),
{
    if str_is(name, "War Chef") {
        Some(Speaker::Player)
    } else if str_is(name, "General Ratso") {
        Some(Speaker::General)
    } else if str_is(name, "Glut Rattan") {
        Some(Speaker::WarChef1)
    } else if str_is(name, "Field Marshal Toothsy") {
        Some(Speaker::WarChef2)
    } else if str_is(name, "Rattin Hood") {
        Some(Speaker::WarChef3)
    } else if str_is(name, "Archmage Ratus") {
        Some(Speaker::WarChef4)
    } else if str_is(name, "Chompers the Barbarian") {
        Some(Speaker::WarChef5)
    } else if str_is(name, "Mobling") {
        Some(Speaker::Mobling)
    } else if str_is(name, "Stabby-Rat") {
        Some(Speaker::StabbyRat)
    } else if str_is(name, "Shooty-Rat") {
        Some(Speaker::ShootyRat)
    } else if str_is(name, "Scoutling") {
        Some(Speaker::Scoutling)
    } else if str_is(name, "Deserter") {
        Some(Speaker::Deserter)
    } else if str_is(name, "Blasty-Rat") {
        Some(Speaker::BlastyRat)
    } else if str_is(name, "Narrator") {
        Some(Speaker::Narrator)
    } else {
        None
    }
}

/// The identifier that stands for "no speaker".
pub open spec fn no_speaker_id() -> Seq<char> {
    "0x0000000000000000"@
}

/// What a model makes of its node: the node's kind and the children that come
/// before those of its output pins (a jump's target); or why it cannot.
pub open spec fn node_kind_of(m: ModelView, models: Seq<ModelView>) -> Result<(KindView, Seq<Seq<char>>), ErrorView> {
    if m.model_type == "DialogueFragment"@ {
        if m.id is None || m.speaker is None || m.text is None {
            Err(ErrorView::MissingProperty(m.model_type))
        } else {
            let sid = m.speaker.unwrap();
            if sid == no_speaker_id() {
                Ok((KindView::Message { speaker: Speaker::NoOne, text: m.text.unwrap() }, Seq::empty()))
            } else {
                match model_lookup(models, sid) {
                    None => Err(ErrorView::MissingSpeaker(sid)),
                    Some(sm) => match sm.display_name {
                        None => Err(ErrorView::MissingProperty(sm.model_type)),
                        Some(name) => match speaker_named(name) {
                            None => Err(ErrorView::UnknownSpeaker(name)),
                            Some(speaker) => Ok(
                                (KindView::Message { speaker, text: m.text.unwrap() }, Seq::empty()),
                            ),
                        },
                    },
                }
            }
        }
    } else if m.model_type == "Instruction"@ {
        if m.id is None || m.text is None || m.expression is None {
            Err(ErrorView::MissingProperty(m.model_type))
        } else {
            match parse_instructions_spec(m.expression.unwrap()) {
                None => Err(ErrorView::InvalidInstructions(m.expression.unwrap())),
                Some(instructions) => Ok((KindView::Instruction { instructions }, Seq::empty())),
            }
        }
    } else if m.model_type == "Condition"@ {
        if m.id is None || m.expression is None {
            Err(ErrorView::MissingProperty(m.model_type))
        } else {
            match parse_condition_spec(m.expression.unwrap()) {
                None => Err(ErrorView::InvalidCondition(m.expression.unwrap())),
                Some((variable, equals)) => Ok((KindView::Condition { variable, equals }, Seq::empty())),
            }
        }
    } else if m.model_type == "Hub"@ {
        Ok((KindView::Noop, Seq::empty()))
    } else if m.model_type == "Jump"@ {
        if m.id is None || m.target is None {
            Err(ErrorView::MissingProperty(m.model_type))
        } else {
            Ok((KindView::Noop, seq![m.target.unwrap()]))
        }
    } else {
        Err(ErrorView::UnknownType(m.model_type))
    }
}

/// The targets of all connections of the pins, pin by pin.
pub open spec fn pin_targets(pins: Seq<Option<Seq<Seq<char>>>>) -> Seq<Seq<char>>
    decreases pins.len(),
{
    if pins.len() == 0 {
        Seq::empty()
    } else {
        pin_targets(pins.drop_last()) + match pins.last() {
            Some(c) => c,
            None => Seq::empty(),
        }
    }
}

/// The targets of a model's output pins.
pub open spec fn out_targets(m: ModelView) -> Seq<Seq<char>> {
    match m.output_pins {
        Some(p) => pin_targets(p),
        None => Seq::empty(),
    }
}

/// The nodes after `node` is stored under `id`: replacing a node of that
/// identifier in place, or going at the end.
pub open spec fn node_insert(nodes: Seq<(Seq<char>, NodeView)>, id: Seq<char>, node: NodeView) -> Seq<(Seq<char>, NodeView)> {
    let p = key_position(nodes, id);
    if p >= 0 {
        nodes.update(p, (id, node))
    } else {
        nodes.push((id, node))
    }
}

/// The nodes after the node `id` and everything after it is added to
/// `nodes`, going at most `fuel` nodes deep: a node already there is left as
/// it is; otherwise its model makes the node, its output pins' targets are
/// added first, one after the other, and then the node itself. A missing
/// model, a model that cannot make a node, or running out of depth is an
/// error.
pub open spec fn build(nodes: Seq<(Seq<char>, NodeView)>, id: Seq<char>, models: Seq<ModelView>, fuel: nat) -> Result<Seq<(Seq<char>, NodeView)>, ErrorView>
    decreases fuel, 0nat,
{
    if key_lookup(nodes, id) is Some {
        Ok(nodes)
    } else if fuel == 0 {
        Err(ErrorView::Cycle)
    } else {
        match model_lookup(models, id) {
            None => Err(ErrorView::MissingModel(id)),
            Some(m) => match node_kind_of(m, models) {
                Err(e) => Err(e),
                Ok((kind, first)) => match build_all(nodes, out_targets(m), models, (fuel - 1) as nat) {
                    Err(e) => Err(e),
                    Ok(n) => Ok(node_insert(n, id, NodeView { kind, children: first + out_targets(m) })),
                },
            },
        }
    }
}

/// The nodes after each of the nodes `targets` and everything after them is
/// added, in order (see `build`).
pub open spec fn build_all(nodes: Seq<(Seq<char>, NodeView)>, targets: Seq<Seq<char>>, models: Seq<ModelView>, fuel: nat) -> Result<Seq<(Seq<char>, NodeView)>, ErrorView>
    decreases fuel, targets.len() + 1,
{
    if targets.len() == 0 {
        Ok(nodes)
    } else {
        match build_all(nodes, targets.drop_last(), models, fuel) {
            Err(e) => Err(e),
            Ok(n) => build(n, targets.last(), models, fuel),
        }
    }
}

/// The dialogue graph of a dialogue with input pins `input_pins`: its
/// starting nodes are the targets of the first input pin, and its nodes
/// everything reachable from them (see `build_all`), going at most as deep as
/// there are models. A dialogue without input pin is an error.
pub open spec fn dialogue_graph(input_pins: Seq<Option<Seq<Seq<char>>>>, models: Seq<ModelView>) -> Result<(Seq<(Seq<char>, NodeView)>, Seq<Seq<char>>), ErrorView> {
    if input_pins.len() == 0 {
        Err(ErrorView::NoInputPin)
    } else {
        let roots = match input_pins[0] {
            Some(c) => c,
            None => Seq::empty(),
        };
        match build_all(Seq::empty(), roots, models, (models.len() + 1) as nat) {
            Err(e) => Err(e),
            Ok(n) => Ok((n, roots)),
        }
    }
}

/// An error carrying a copy of `s`.
pub(crate) fn missing_property(s: &String) -> (r: ArticyError)
    ensures
        r@ == ErrorView::MissingProperty(s@),
{
    ArticyError::MissingProperty(s.clone())
}

/// What a model makes of its node (see `node_kind_of`).
pub fn node_kind(m: &ArticyModel, models: &Vec<ArticyModel>) -> (r: Result<(ArticyDialogueKind, Vec<ArticyId>), ArticyError>)
    ensures
        match node_kind_of(m@, models_view(models@)) {
            Ok((k, f)) => r matches Ok((a, b)) && a@ == k && ids_view(b@) == f,
            Err(e) => r matches Err(x) && x@ == e,
        },
{
    let empty: Vec<ArticyId> = Vec::new();
    assert(ids_view(empty@) =~= Seq::<Seq<char>>::empty());
    if str_is(&m.model_type, "DialogueFragment") {
        match (&m.id, &m.speaker, &m.text) {
            (Some(_), Some(sid), Some(text)) => {
                if str_is(sid, "0x0000000000000000") {
                    Ok((ArticyDialogueKind::Message { speaker: Speaker::NoOne, text: text.clone() }, empty))
                } else {
                    proof {
                        lemma_model_position(models_view(models@), sid@);
                    }
                    match find_model(models, sid) {
                        None => Err(ArticyError::MissingSpeaker(sid.clone())),
                        Some(p) => {
                            let sm = &models[p];
                            assert(models_view(models@)[p as int] == sm@);
                            match &sm.display_name {
                                None => Err(missing_property(&sm.model_type)),
                                Some(name) => match speaker_from_display_name(name) {
                                    None => Err(ArticyError::UnknownSpeaker(name.clone())),
                                    Some(speaker) => Ok(
                                        (ArticyDialogueKind::Message { speaker, text: text.clone() }, empty),
                                    ),
                                },
                            }
                        },
                    }
                }
            },
            _ => Err(missing_property(&m.model_type)),
        }
    } else if str_is(&m.model_type, "Instruction") {
        match (&m.id, &m.text, &m.expression) {
            (Some(_), Some(_), Some(e)) => match parse_instructions_checked(e.as_str()) {
                None => Err(ArticyError::InvalidInstructions(e.clone())),
                Some(instructions) => {
                    assert(instructions_view(instructions@) == instructions@.map_values(
                        |i: crate::articy::ArticyDialogueInstruction| i@,
                    ));
                    Ok((ArticyDialogueKind::Instruction { instructions }, empty))
                },
            },
            _ => Err(missing_property(&m.model_type)),
        }
    } else if str_is(&m.model_type, "Condition") {
        match (&m.id, &m.expression) {
            (Some(_), Some(e)) => match parse_condition_checked(e.as_str()) {
                None => Err(ArticyError::InvalidCondition(e.clone())),
                Some((variable, equals)) => Ok((ArticyDialogueKind::Condition { variable, equals }, empty)),
            },
            _ => Err(missing_property(&m.model_type)),
        }
    } else if str_is(&m.model_type, "Hub") {
        Ok((ArticyDialogueKind::Noop, empty))
    } else if str_is(&m.model_type, "Jump") {
        match (&m.id, &m.target) {
            (Some(_), Some(t)) => {
                let mut first: Vec<ArticyId> = Vec::new();
                first.push(ArticyId::new(t.clone()));
                assert(ids_view(first@) =~= seq![t@]);
                Ok((ArticyDialogueKind::Noop, first))
            },
            _ => Err(missing_property(&m.model_type)),
        }
    } else {
        Err(ArticyError::UnknownType(m.model_type.clone()))
    }
}

/// The targets of all connections of the pins, pin by pin (see `pin_targets`).
pub fn collect_targets(pins: &Option<Vec<Option<Vec<String>>>>) -> (r: Vec<ArticyId>)
    ensures
        ids_view(r@) == (match pins_view(*pins) {
            Some(p) => pin_targets(p),
            None => Seq::empty(),
        }),
{
    let mut r: Vec<ArticyId> = Vec::new();
    match pins {
        None => {
            assert(ids_view(r@) =~= Seq::<Seq<char>>::empty());
        },
        Some(v) => {
            let ghost pv = pins_view(*pins).unwrap();
            let mut i: usize = 0;
            assert(ids_view(r@) =~= pin_targets(pv.take(0)));
            while i < v.len()
                invariant
                    i <= v@.len(),
                    pv == pins_view(Some(*v)).unwrap(),
                    pv.len() == v@.len(),
                    ids_view(r@) == pin_targets(pv.take(i as int)),
                decreases v.len() - i,
            {
                assert(pv.take(i + 1).drop_last() =~= pv.take(i as int));
                match &v[i] {
                    None => {},
                    Some(c) => {
                        let ghost before = r@;
                        let mut j: usize = 0;
                        while j < c.len()
                            invariant
                                j <= c@.len(),
                                ids_view(r@) == ids_view(before) + c@.take(j as int).map_values(|s: String| s@),
                            decreases c.len() - j,
                        {
                            let ghost b2 = r@;
                            r.push(ArticyId::new(c[j].clone()));
                            assert(ids_view(r@) =~= ids_view(b2).push(c@[j as int]@));
                            assert(c@.take(j + 1).map_values(|s: String| s@) =~= c@.take(j as int).map_values(
                                |s: String| s@,
                            ).push(c@[j as int]@));
                            j = j + 1;
                        }
                        assert(c@.take(j as int) =~= c@);
                    },
                }
                assert(pv.take(i + 1).last() == pv[i as int]);
                i = i + 1;
            }
            assert(pv.take(i as int) =~= pv);
        },
    }
    r
}

/// The position of the node `id` among the nodes, if it is there.
fn node_position(nodes: &Vec<(ArticyId, ArticyDialogueNode)>, id: &ArticyId) -> (r: Option<usize>)
    ensures
        match r {
            Some(p) => key_position(nodes_view(nodes@), id@) == p && p < nodes@.len(),
            None => key_position(nodes_view(nodes@), id@) == -1,
        },
{
    let ghost nv = nodes_view(nodes@);
    let mut i: usize = 0;
    while i < nodes.len()
        invariant
            i <= nodes@.len(),
            nv == nodes_view(nodes@),
            nv.len() == nodes@.len(),
            forall|j: int| 0 <= j < i ==> nv[j].0 != id@,
        decreases nodes.len() - i,
    {
        assert(nv[i as int] == (nodes@[i as int].0@, nodes@[i as int].1@));
        if nodes[i].0.same(id) {
            proof {
                lemma_key_position_at(nv, id@, i as int);
            }
            return Some(i);
        }
        i = i + 1;
    }
    proof {
        lemma_key_absent(nv, id@);
    }
    None
}

/// When adding the first nodes of a list already fails, adding the whole
/// list fails the same way.
pub proof fn lemma_build_all_prefix_err(nodes: Seq<(Seq<char>, NodeView)>, targets: Seq<Seq<char>>, k: int, models: Seq<ModelView>, fuel: nat)
    requires
        0 <= k <= targets.len(),
        build_all(nodes, targets.take(k), models, fuel) is Err,
    ensures
        build_all(nodes, targets, models, fuel) == build_all(nodes, targets.take(k), models, fuel),
    decreases targets.len(),
{
    if k == targets.len() {
        assert(targets.take(k) =~= targets);
    } else {
        assert(targets.drop_last().take(k) =~= targets.take(k));
        lemma_build_all_prefix_err(nodes, targets.drop_last(), k, models, fuel);
    }
}

/// Adds the node `id` and everything after it to `nodes` (see `build`).
fn build_node(nodes: &mut Vec<(ArticyId, ArticyDialogueNode)>, id: &ArticyId, models: &Vec<ArticyModel>, fuel: usize) -> (r: Result<(), ArticyError>)
    ensures
        match build(nodes_view(old(nodes)@), id@, models_view(models@), fuel as nat) {
            Ok(n) => r is Ok && nodes_view(final(nodes)@) == n,
            Err(e) => r matches Err(x) && x@ == e,
        },
    decreases fuel,
{
    let ghost mv = models_view(models@);
    let ghost start = nodes_view(nodes@);
    proof {
        lemma_key_position(start, id@);
    }
    if node_position(nodes, id).is_some() {
        return Ok(());
    }
    if fuel == 0 {
        return Err(ArticyError::Cycle);
    }
    let idstr = id.as_str().to_owned();
    proof {
        lemma_model_position(mv, id@);
    }
    let p = match find_model(models, &idstr) {
        Some(p) => p,
        None => {
            return Err(ArticyError::MissingModel(idstr));
        },
    };
    let m = &models[p];
    assert(mv[p as int] == m@);
    let (kind, mut children) = match node_kind(m, models) {
        Ok(x) => x,
        Err(e) => {
            return Err(e);
        },
    };
    let targets = collect_targets(&m.output_pins);
    let ghost tv = ids_view(targets@);
    assert(tv == out_targets(m@));
    let mut i: usize = 0;
    assert(tv.take(0) =~= Seq::<Seq<char>>::empty());
    while i < targets.len()
        invariant
            i <= targets@.len(),
            tv == ids_view(targets@),
            tv.len() == targets@.len(),
            mv == models_view(models@),
            fuel > 0,
            start == nodes_view(old(nodes)@),
            key_lookup(start, id@) is None,
            model_lookup(mv, id@) == Some(m@),
            node_kind_of(m@, mv) is Ok,
            tv == out_targets(m@),
            build_all(start, tv.take(i as int), mv, (fuel - 1) as nat) == Ok::<
                Seq<(Seq<char>, NodeView)>,
                ErrorView,
            >(nodes_view(nodes@)),
        decreases targets.len() - i,
    {
        assert(tv.take(i + 1).drop_last() =~= tv.take(i as int));
        assert(tv.take(i + 1).last() == targets@[i as int]@);
        let res = build_node(nodes, &targets[i], models, fuel - 1);
        match res {
            Ok(()) => {},
            Err(e) => {
                proof {
                    lemma_build_all_prefix_err(start, tv, i + 1, mv, (fuel - 1) as nat);
                    assert(build_all(start, tv, mv, (fuel - 1) as nat) == Err::<Seq<(Seq<char>, NodeView)>, ErrorView>(e@));
                    assert(key_lookup(start, id@) is None);
                    assert(model_lookup(mv, id@) == Some(m@));
                    assert(node_kind_of(m@, mv) is Ok);
                    assert(build(start, id@, mv, fuel as nat) == Err::<Seq<(Seq<char>, NodeView)>, ErrorView>(e@));
                }
                return Err(e);
            },
        }
        i = i + 1;
    }
    assert(tv.take(i as int) =~= tv);
    let ghost first = ids_view(children@);
    let mut j: usize = 0;
    while j < targets.len()
        invariant
            j <= targets@.len(),
            ids_view(children@) == first + ids_view(targets@).take(j as int),
        decreases targets.len() - j,
    {
        let ghost before = children@;
        children.push(targets[j].duplicate());
        assert(ids_view(children@) =~= ids_view(before).push(targets@[j as int]@));
        assert(ids_view(targets@).take(j + 1) =~= ids_view(targets@).take(j as int).push(targets@[j as int]@));
        j = j + 1;
    }
    assert(ids_view(targets@).take(j as int) =~= ids_view(targets@));
    let node = ArticyDialogueNode { kind, children };
    let ghost n = nodes_view(nodes@);
    let ghost nodev = node@;
    proof {
        lemma_key_position(n, id@);
    }
    match node_position(nodes, id) {
        Some(q) => {
            nodes.set(q, (id.duplicate(), node));
            assert(nodes_view(nodes@) =~= n.update(q as int, (id@, nodev)));
        },
        None => {
            nodes.push((id.duplicate(), node));
            assert(nodes_view(nodes@) =~= n.push((id@, nodev)));
        },
    }
    Ok(())
}

/// The dialogue graph of a dialogue with input pins `input_pins` (see
/// `dialogue_graph`).
pub fn parse_dialogue(input_pins: &Vec<Option<Vec<String>>>, models: &Vec<ArticyModel>) -> (r: Result<ArticyDialogue, ArticyError>)
    requires
        models@.len() < usize::MAX,
    ensures
        match dialogue_graph(pins_view(Some(*input_pins)).unwrap(), models_view(models@)) {
            Ok((nodes, roots)) => r matches Ok(d) && d@.nodes == nodes && d@.children == roots,
            Err(e) => r matches Err(x) && x@ == e,
        },
{
    let ghost pv = pins_view(Some(*input_pins)).unwrap();
    let ghost mv = models_view(models@);
    proof {
        lemma_model_position(mv, Seq::empty());
    }
    if input_pins.len() == 0 {
        return Err(ArticyError::NoInputPin);
    }
    let first: Option<Vec<String>> = match &input_pins[0] {
        Some(c) => Some(copy_strings(c)),
        None => None,
    };
    let mut one: Vec<Option<Vec<String>>> = Vec::new();
    one.push(first);
    let roots = collect_targets(&Some(one));
    proof {
        let p1 = pins_view(Some(one)).unwrap();
        assert(p1.len() == 1);
        assert(p1[0] == pv[0]);
        assert(p1.drop_last() =~= Seq::<Option<Seq<Seq<char>>>>::empty());
        assert(pin_targets(p1.drop_last()) =~= Seq::<Seq<char>>::empty());
        assert(p1.last() == pv[0]);
        assert(ids_view(roots@) =~= (match pv[0] {
            Some(c) => c,
            None => Seq::empty(),
        }));
    }
    let ghost rv = ids_view(roots@);
    let fuel = models.len() + 1;
    let mut nodes: Vec<(ArticyId, ArticyDialogueNode)> = Vec::new();
    assert(nodes_view(nodes@) =~= Seq::<(Seq<char>, NodeView)>::empty());
    let mut i: usize = 0;
    assert(rv.take(0) =~= Seq::<Seq<char>>::empty());
    while i < roots.len()
        invariant
            i <= roots@.len(),
            rv == ids_view(roots@),
            rv.len() == roots@.len(),
            mv == models_view(models@),
            fuel == models@.len() + 1,
            pv == pins_view(Some(*input_pins)).unwrap(),
            pv.len() > 0,
            rv == (match pv[0] {
                Some(c) => c,
                None => Seq::empty(),
            }),
            build_all(Seq::empty(), rv.take(i as int), mv, fuel as nat) == Ok::<
                Seq<(Seq<char>, NodeView)>,
                ErrorView,
            >(nodes_view(nodes@)),
        decreases roots.len() - i,
    {
        assert(rv.take(i + 1).drop_last() =~= rv.take(i as int));
        assert(rv.take(i + 1).last() == roots@[i as int]@);
        match build_node(&mut nodes, &roots[i], models, fuel) {
            Ok(()) => {},
            Err(e) => {
                proof {
                    lemma_build_all_prefix_err(Seq::empty(), rv, i + 1, mv, fuel as nat);
                }
                return Err(e);
            },
        }
        i = i + 1;
    }
    assert(rv.take(i as int) =~= rv);
    Ok(ArticyDialogue { nodes, children: roots })
}

/// A copy of a list of texts.
pub(crate) fn copy_strings(v: &Vec<String>) -> (r: Vec<String>)
    ensures
        r@.map_values(|s: String| s@) == v@.map_values(|s: String| s@),
{
    let mut r: Vec<String> = Vec::new();
    let mut i: usize = 0;
    while i < v.len()
        invariant
            i <= v@.len(),
            r@.map_values(|s: String| s@) =~= v@.take(i as int).map_values(|s: String| s@),
        decreases v.len() - i,
    {
        let ghost before = r@;
        r.push(v[i].clone());
        assert(r@.map_values(|s: String| s@) =~= before.map_values(|s: String| s@).push(v@[i as int]@));
        assert(v@.take(i + 1).map_values(|s: String| s@) =~= v@.take(i as int).map_values(|s: String| s@).push(
            v@[i as int]@,
        ));
        i = i + 1;
    }
    assert(v@.take(i as int) =~= v@);
    r
}

/// The value of a success, or an arbitrary value for an error.
pub open spec fn ok_value<T>(r: Result<T, ErrorView>) -> T {
    match r {
        Ok(v) => v,
        Err(_) => arbitrary(),
    }
}

/// Whether no two nodes have the same identifier.
pub open spec fn keys_unique(nodes: Seq<(Seq<char>, NodeView)>) -> bool {
    forall|i: int, j: int| 0 <= i < j < nodes.len() ==> nodes[i].0 != nodes[j].0
}

/// Whether a node has the identifier `k`.
pub open spec fn has_key(nodes: Seq<(Seq<char>, NodeView)>, k: Seq<char>) -> bool {
    exists|i: int| 0 <= i < nodes.len() && #[trigger] nodes[i].0 == k
}

/// A node has an identifier exactly when looking it up finds one.
pub proof fn lemma_has_key(nodes: Seq<(Seq<char>, NodeView)>, k: Seq<char>)
    ensures
        has_key(nodes, k) == (key_lookup(nodes, k) is Some),
{
    lemma_key_position(nodes, k);
    if key_position(nodes, k) >= 0 {
        assert(nodes[key_position(nodes, k)].0 == k);
    }
}

/// Storing a node keeps the identifiers unique and every identifier there
/// was, and adds its own.
pub proof fn lemma_node_insert(nodes: Seq<(Seq<char>, NodeView)>, id: Seq<char>, node: NodeView)
    requires
        keys_unique(nodes),
    ensures
        keys_unique(node_insert(nodes, id, node)),
        has_key(node_insert(nodes, id, node), id),
        forall|k: Seq<char>| has_key(nodes, k) ==> has_key(node_insert(nodes, id, node), k),
{
    lemma_key_position(nodes, id);
    let r = node_insert(nodes, id, node);
    let p = key_position(nodes, id);
    if p >= 0 {
        assert(r[p].0 == id);
        assert forall|k: Seq<char>| has_key(nodes, k) implies has_key(r, k) by {
            let i = choose|i: int| 0 <= i < nodes.len() && #[trigger] nodes[i].0 == k;
            assert(r[i].0 == k);
        }
    } else {
        assert(r[nodes.len() as int].0 == id);
        assert forall|k: Seq<char>| has_key(nodes, k) implies has_key(r, k) by {
            let i = choose|i: int| 0 <= i < nodes.len() && #[trigger] nodes[i].0 == k;
            assert(r[i].0 == k);
        }
        assert forall|i: int, j: int| 0 <= i < j < r.len() implies r[i].0 != r[j].0 by {
            if j == nodes.len() {
                assert(nodes[i].0 != id);
            }
        }
    }
}

/// Adding a node and everything after it keeps the identifiers unique and
/// every identifier there was, and adds the node's own.
pub proof fn lemma_build_keys(nodes: Seq<(Seq<char>, NodeView)>, id: Seq<char>, models: Seq<ModelView>, fuel: nat)
    requires
        keys_unique(nodes),
        build(nodes, id, models, fuel) is Ok,
    ensures
        keys_unique(ok_value(build(nodes, id, models, fuel))),
        has_key(ok_value(build(nodes, id, models, fuel)), id),
        forall|k: Seq<char>| has_key(nodes, k) ==> has_key(ok_value(build(nodes, id, models, fuel)), k),
    decreases fuel, 0nat,
{
    lemma_has_key(nodes, id);
    if key_lookup(nodes, id) is None {
        let m = model_lookup(models, id).unwrap();
        let (kind, first) = ok_value(node_kind_of(m, models));
        lemma_build_all_keys(nodes, out_targets(m), models, (fuel - 1) as nat);
        let n = ok_value(build_all(nodes, out_targets(m), models, (fuel - 1) as nat));
        lemma_node_insert(n, id, NodeView { kind, children: first + out_targets(m) });
    }
}

/// Adding nodes and everything after them keeps the identifiers unique and
/// every identifier there was, and adds each of theirs.
pub proof fn lemma_build_all_keys(nodes: Seq<(Seq<char>, NodeView)>, targets: Seq<Seq<char>>, models: Seq<ModelView>, fuel: nat)
    requires
        keys_unique(nodes),
        build_all(nodes, targets, models, fuel) is Ok,
    ensures
        keys_unique(ok_value(build_all(nodes, targets, models, fuel))),
        forall|i: int| 0 <= i < targets.len() ==> has_key(ok_value(build_all(nodes, targets, models, fuel)), #[trigger] targets[i]),
        forall|k: Seq<char>| has_key(nodes, k) ==> has_key(ok_value(build_all(nodes, targets, models, fuel)), k),
    decreases fuel, targets.len() + 1,
{
    if targets.len() > 0 {
        lemma_build_all_keys(nodes, targets.drop_last(), models, fuel);
        let n = ok_value(build_all(nodes, targets.drop_last(), models, fuel));
        lemma_build_keys(n, targets.last(), models, fuel);
        assert forall|i: int| 0 <= i < targets.len() implies has_key(ok_value(build_all(nodes, targets, models, fuel)), #[trigger] targets[i]) by {
            if i < targets.len() - 1 {
                assert(targets.drop_last()[i] == targets[i]);
            }
        }
    }
}

/// A loaded dialogue graph holds each node once, and holds every node it
/// starts at.
pub proof fn law_dialogue_graph_well_formed(input_pins: Seq<Option<Seq<Seq<char>>>>, models: Seq<ModelView>)
    requires
        dialogue_graph(input_pins, models) is Ok,
    ensures
        keys_unique(ok_value(dialogue_graph(input_pins, models)).0),
        forall|i: int|
            0 <= i < ok_value(dialogue_graph(input_pins, models)).1.len() ==> has_key(
                ok_value(dialogue_graph(input_pins, models)).0,
                #[trigger] ok_value(dialogue_graph(input_pins, models)).1[i],
            ),
{
    let roots = match input_pins[0] {
        Some(c) => c,
        None => Seq::empty(),
    };
    lemma_build_all_keys(Seq::empty(), roots, models, (models.len() + 1) as nat);
}

/// Reaching nodes that the graph already holds (a node shared by several
/// parents) adds nothing: the graph stays as it was, whatever the models,
/// and however deep the walk may still go.
pub proof fn law_present_nodes_unchanged(nodes: Seq<(Seq<char>, NodeView)>, targets: Seq<Seq<char>>, models: Seq<ModelView>, fuel: nat)
    requires
        forall|i: int| 0 <= i < targets.len() ==> key_lookup(nodes, #[trigger] targets[i]) is Some,
    ensures
        build_all(nodes, targets, models, fuel) == Ok::<Seq<(Seq<char>, NodeView)>, ErrorView>(nodes),
        forall|i: int| 0 <= i < targets.len() ==> build(nodes, #[trigger] targets[i], models, fuel) == Ok::<
            Seq<(Seq<char>, NodeView)>,
            ErrorView,
        >(nodes),
    decreases targets.len(),
{
    if targets.len() > 0 {
        let t = targets.drop_last();
        assert forall|i: int| 0 <= i < t.len() implies key_lookup(nodes, #[trigger] t[i]) is Some by {
            assert(t[i] == targets[i]);
        }
        law_present_nodes_unchanged(nodes, t, models, fuel);
        assert(key_lookup(nodes, targets[targets.len() - 1]) is Some);
        assert(build(nodes, targets.last(), models, fuel) == Ok::<Seq<(Seq<char>, NodeView)>, ErrorView>(nodes));
        assert(build_all(nodes, t, models, fuel) == Ok::<Seq<(Seq<char>, NodeView)>, ErrorView>(nodes));
    }
}

/// A copy of a text property.
fn copy_opt(o: &Option<String>) -> (r: Option<String>)
    ensures
        opt_view(r) == opt_view(*o),
{
    match o {
        Some(s) => Some(s.clone()),
        None => None,
    }
}

/// A copy of a list of pins.
fn copy_pins(p: &Option<Vec<Option<Vec<String>>>>) -> (r: Option<Vec<Option<Vec<String>>>>)
    ensures
        pins_view(r) == pins_view(*p),
{
    match p {
        None => None,
        Some(v) => {
            let mut r: Vec<Option<Vec<String>>> = Vec::new();
            let mut i: usize = 0;
            while i < v.len()
                invariant
                    i <= v@.len(),
                    pins_view(Some(r)).unwrap() =~= pins_view(Some(*v)).unwrap().take(i as int),
                decreases v.len() - i,
            {
                let pin = match &v[i] {
                    Some(c) => Some(copy_strings(c)),
                    None => None,
                };
                let ghost before = r;
                r.push(pin);
                assert(pins_view(Some(r)).unwrap() =~= pins_view(Some(before)).unwrap().push(
                    pins_view(Some(*v)).unwrap()[i as int],
                ));
                i = i + 1;
            }
            Some(r)
        },
    }
}

impl ArticyModel {
    /// A copy of the model.
    pub fn duplicate(&self) -> (r: ArticyModel)
        ensures
            r@ == self@,
    {
        ArticyModel {
            model_type: self.model_type.clone(),
            id: copy_opt(&self.id),
            technical_name: copy_opt(&self.technical_name),
            text: copy_opt(&self.text),
            speaker: copy_opt(&self.speaker),
            expression: copy_opt(&self.expression),
            target: copy_opt(&self.target),
            display_name: copy_opt(&self.display_name),
            input_pins: copy_pins(&self.input_pins),
            output_pins: copy_pins(&self.output_pins),
        }
    }
}

/// A package's models sorted into its dialogues and the other models, both
/// in order; or the first model that lacks what it needs (a dialogue its
/// technical name or input pins, any other model its identifier).
pub open spec fn sort_models(ms: Seq<ModelView>) -> Result<(Seq<ModelView>, Seq<ModelView>), ErrorView>
    decreases ms.len(),
{
    if ms.len() == 0 {
        Ok((Seq::empty(), Seq::empty()))
    } else {
        match sort_models(ms.drop_last()) {
            Err(e) => Err(e),
            Ok((ds, os)) => {
                let m = ms.last();
                if m.model_type == "Dialogue"@ {
                    if m.technical_name is None || m.input_pins is None {
                        Err(ErrorView::MissingProperty(m.model_type))
                    } else {
                        Ok((ds.push(m), os))
                    }
                } else if m.id is None {
                    Err(ErrorView::MissingProperty(m.model_type))
                } else {
                    Ok((ds, os.push(m)))
                }
            },
        }
    }
}

/// The dialogues after the dialogue models `ds` are loaded, in order, each
/// under its technical name, with the graph `dialogue_graph` makes of it from
/// the other models `os`; or the first error.
pub open spec fn add_dialogues(acc: Seq<(Seq<char>, DialogueGraphView)>, ds: Seq<ModelView>, os: Seq<ModelView>) -> Result<Seq<(Seq<char>, DialogueGraphView)>, ErrorView>
    decreases ds.len(),
{
    if ds.len() == 0 {
        Ok(acc)
    } else {
        match add_dialogues(acc, ds.drop_last(), os) {
            Err(e) => Err(e),
            Ok(a) => {
                let d = ds.last();
                match dialogue_graph(d.input_pins.unwrap(), os) {
                    Err(e) => Err(e),
                    Ok((n, r)) => Ok(
                        dialogues_insert(a, d.technical_name.unwrap(), DialogueGraphView { nodes: n, children: r }),
                    ),
                }
            },
        }
    }
}

/// The dialogues after the packages are loaded, in order: the default
/// packages' dialogues, each package on its own (see `sort_models` and
/// `add_dialogues`); other packages are passed over.
pub open spec fn load_packages(acc: Seq<(Seq<char>, DialogueGraphView)>, ps: Seq<(bool, Seq<ModelView>)>) -> Result<Seq<(Seq<char>, DialogueGraphView)>, ErrorView>
    decreases ps.len(),
{
    if ps.len() == 0 {
        Ok(acc)
    } else {
        match load_packages(acc, ps.drop_last()) {
            Err(e) => Err(e),
            Ok(a) => {
                let (is_default, ms) = ps.last();
                if !is_default {
                    Ok(a)
                } else {
                    match sort_models(ms) {
                        Err(e) => Err(e),
                        Ok((ds, os)) => add_dialogues(a, ds, os),
                    }
                }
            },
        }
    }
}

/// The value a boolean variable is written as: `true` or `false` in any mix
/// of upper and lower case.
pub open spec fn bool_value(v: Seq<char>) -> Option<bool> {
    if ascii_lower(v) == "true"@ {
        Some(true)
    } else if ascii_lower(v) == "false"@ {
        Some(false)
    } else {
        None
    }
}

/// The text with its ASCII capitals made small.
pub open spec fn ascii_lower(v: Seq<char>) -> Seq<char> {
    v.map_values(|c: char| if 'A' <= c <= 'Z' { ((c as u32) + 32) as char } else { c })
}

/// The global variables after the variable sets are read, in order: each
/// variable of the `Game` namespace, which must be a boolean with a boolean
/// value, is set; other namespaces are passed over.
pub open spec fn load_variables(acc: Seq<(Seq<char>, bool)>, sets: Seq<(Seq<char>, Seq<(Seq<char>, Seq<char>, Seq<char>)>)>) -> Result<Seq<(Seq<char>, bool)>, ErrorView>
    decreases sets.len(),
{
    if sets.len() == 0 {
        Ok(acc)
    } else {
        match load_variables(acc, sets.drop_last()) {
            Err(e) => Err(e),
            Ok(a) => {
                let (namespace, vars) = sets.last();
                if namespace == "Game"@ {
                    set_variables(a, vars)
                } else {
                    Ok(a)
                }
            },
        }
    }
}

/// The global variables after the variables (name, type, value) are set, in
/// order.
pub open spec fn set_variables(acc: Seq<(Seq<char>, bool)>, vars: Seq<(Seq<char>, Seq<char>, Seq<char>)>) -> Result<Seq<(Seq<char>, bool)>, ErrorView>
    decreases vars.len(),
{
    if vars.len() == 0 {
        Ok(acc)
    } else {
        match set_variables(acc, vars.drop_last()) {
            Err(e) => Err(e),
            Ok(a) => {
                let (name, ty, value) = vars.last();
                if ty != "Boolean"@ {
                    Err(ErrorView::InvalidVariable(ty))
                } else {
                    match bool_value(value) {
                        None => Err(ErrorView::InvalidVariable(value)),
                        Some(b) => Ok(var_insert(a, name, b)),
                    }
                }
            },
        }
    }
}

/// When sorting the first models already fails, sorting all fails the same
/// way.
proof fn lemma_sort_models_prefix_err(ms: Seq<ModelView>, k: int)
    requires
        0 <= k <= ms.len(),
        sort_models(ms.take(k)) is Err,
    ensures
        sort_models(ms) == sort_models(ms.take(k)),
    decreases ms.len(),
{
    if k == ms.len() {
        assert(ms.take(k) =~= ms);
    } else {
        assert(ms.drop_last().take(k) =~= ms.take(k));
        lemma_sort_models_prefix_err(ms.drop_last(), k);
    }
}

/// Sorting models never yields more other models than there are models.
proof fn lemma_sort_models_len(ms: Seq<ModelView>)
    requires
        sort_models(ms) is Ok,
    ensures
        ok_value(sort_models(ms)).1.len() <= ms.len(),
    decreases ms.len(),
{
    if ms.len() > 0 {
        lemma_sort_models_len(ms.drop_last());
    }
}

/// Sorts a package's models (see `sort_models`).
pub fn sort_package_models(ms: &Vec<ArticyModel>) -> (r: Result<(Vec<ArticyModel>, Vec<ArticyModel>), ArticyError>)
    ensures
        match sort_models(models_view(ms@)) {
            Ok((ds, os)) => r matches Ok((a, b)) && models_view(a@) == ds && models_view(b@) == os,
            Err(e) => r matches Err(x) && x@ == e,
        },
{
    let ghost mv = models_view(ms@);
    let mut ds: Vec<ArticyModel> = Vec::new();
    let mut os: Vec<ArticyModel> = Vec::new();
    let mut i: usize = 0;
    assert(mv.take(0) =~= Seq::<ModelView>::empty());
    assert(models_view(ds@) =~= Seq::<ModelView>::empty());
    assert(models_view(os@) =~= Seq::<ModelView>::empty());
    while i < ms.len()
        invariant
            i <= ms@.len(),
            mv == models_view(ms@),
            mv.len() == ms@.len(),
            sort_models(mv.take(i as int)) == Ok::<(Seq<ModelView>, Seq<ModelView>), ErrorView>(
                (models_view(ds@), models_view(os@)),
            ),
        decreases ms.len() - i,
    {
        let m = &ms[i];
        assert(mv.take(i + 1).drop_last() =~= mv.take(i as int));
        assert(mv.take(i + 1).last() == m@);
        let ghost dv = ds@;
        let ghost ov = os@;
        if str_is(&m.model_type, "Dialogue") {
            if m.technical_name.is_none() || m.input_pins.is_none() {
                proof {
                    lemma_sort_models_prefix_err(mv, i + 1);
                }
                return Err(missing_property(&m.model_type));
            }
            ds.push(m.duplicate());
            assert(models_view(ds@) =~= models_view(dv).push(m@));
        } else {
            if m.id.is_none() {
                proof {
                    lemma_sort_models_prefix_err(mv, i + 1);
                }
                return Err(missing_property(&m.model_type));
            }
            os.push(m.duplicate());
            assert(models_view(os@) =~= models_view(ov).push(m@));
        }
        i = i + 1;
    }
    assert(mv.take(i as int) =~= mv);
    Ok((ds, os))
}

/// When adding the first dialogues already fails, adding all fails the same
/// way.
proof fn lemma_add_dialogues_prefix_err(acc: Seq<(Seq<char>, DialogueGraphView)>, ds: Seq<ModelView>, os: Seq<ModelView>, k: int)
    requires
        0 <= k <= ds.len(),
        add_dialogues(acc, ds.take(k), os) is Err,
    ensures
        add_dialogues(acc, ds, os) == add_dialogues(acc, ds.take(k), os),
    decreases ds.len(),
{
    if k == ds.len() {
        assert(ds.take(k) =~= ds);
    } else {
        assert(ds.drop_last().take(k) =~= ds.take(k));
        lemma_add_dialogues_prefix_err(acc, ds.drop_last(), os, k);
    }
}

/// Loads the dialogue models `ds` with the other models `os` into `articy`
/// (see `add_dialogues`).
fn add_package_dialogues(articy: &mut Articy, ds: &Vec<ArticyModel>, os: &Vec<ArticyModel>) -> (r: Result<(), ArticyError>)
    requires
        os@.len() < usize::MAX,
        forall|i: int| 0 <= i < ds@.len() ==> (#[trigger] ds@[i]).technical_name is Some && ds@[i].input_pins is Some,
    ensures
        match add_dialogues(old(articy)@.dialogues, models_view(ds@), models_view(os@)) {
            Ok(a) => r is Ok && final(articy)@.dialogues == a,
            Err(e) => r matches Err(x) && x@ == e,
        },
        final(articy)@.global_variables == old(articy)@.global_variables,
{
    let ghost dv = models_view(ds@);
    let ghost ov = models_view(os@);
    let ghost start = articy@.dialogues;
    let mut i: usize = 0;
    assert(dv.take(0) =~= Seq::<ModelView>::empty());
    while i < ds.len()
        invariant
            i <= ds@.len(),
            dv == models_view(ds@),
            dv.len() == ds@.len(),
            ov == models_view(os@),
            os@.len() < usize::MAX,
            start == old(articy)@.dialogues,
            forall|j: int| 0 <= j < ds@.len() ==> (#[trigger] ds@[j]).technical_name is Some && ds@[j].input_pins is Some,
            add_dialogues(start, dv.take(i as int), ov) == Ok::<Seq<(Seq<char>, DialogueGraphView)>, ErrorView>(
                articy@.dialogues,
            ),
            articy@.global_variables == old(articy)@.global_variables,
        decreases ds.len() - i,
    {
        let d = &ds[i];
        assert(dv.take(i + 1).drop_last() =~= dv.take(i as int));
        assert(dv.take(i + 1).last() == d@);
        assert(ds@[i as int].technical_name is Some);
        let name = d.technical_name.as_ref().unwrap();
        let pins = d.input_pins.as_ref().unwrap();
        assert(pins_view(d.input_pins).unwrap() == pins_view(Some(*pins)).unwrap());
        match parse_dialogue(pins, os) {
            Ok(graph) => {
                articy.insert_dialogue(name.clone(), graph);
            },
            Err(e) => {
                proof {
                    lemma_add_dialogues_prefix_err(start, dv, ov, i + 1);
                }
                return Err(e);
            },
        }
        i = i + 1;
    }
    assert(dv.take(i as int) =~= dv);
    Ok(())
}

/// The text with its ASCII capitals made small.
fn lower_ascii(s: &String) -> (r: Vec<char>)
    ensures
        r@ == ascii_lower(s@),
{
    let cs = chars_of(s.as_str());
    let mut r: Vec<char> = Vec::new();
    let mut i: usize = 0;
    while i < cs.len()
        invariant
            i <= cs@.len(),
            cs@ == s@,
            r@ =~= ascii_lower(s@).take(i as int),
        decreases cs.len() - i,
    {
        let c = cs[i];
        let l = if 'A' <= c && c <= 'Z' {
            char_add_32(c)
        } else {
            c
        };
        r.push(l);
        i = i + 1;
    }
    r
}

/// The small letter of an ASCII capital.
fn char_add_32(c: char) -> (r: char)
    requires
        'A' <= c <= 'Z',
    ensures
        r == ((c as u32) + 32) as char,
{
    let b: u8 = (c as u8) + 32;
    b as char
}

/// The value a boolean variable is written as (see `bool_value`).
pub fn parse_bool_value(v: &String) -> (r: Option<bool>)
    ensures
        r == bool_value(v@),
{
    let l = lower_ascii(v);
    if chars_eq_str(&l, "true") {
        Some(true)
    } else if chars_eq_str(&l, "false") {
        Some(false)
    } else {
        None
    }
}

/// When reading the first variables already fails, reading all fails the
/// same way.
proof fn lemma_set_variables_prefix_err(acc: Seq<(Seq<char>, bool)>, vars: Seq<(Seq<char>, Seq<char>, Seq<char>)>, k: int)
    requires
        0 <= k <= vars.len(),
        set_variables(acc, vars.take(k)) is Err,
    ensures
        set_variables(acc, vars) == set_variables(acc, vars.take(k)),
    decreases vars.len(),
{
    if k == vars.len() {
        assert(vars.take(k) =~= vars);
    } else {
        assert(vars.drop_last().take(k) =~= vars.take(k));
        lemma_set_variables_prefix_err(acc, vars.drop_last(), k);
    }
}

/// When reading the first variable sets already fails, reading all fails
/// the same way.
proof fn lemma_load_variables_prefix_err(acc: Seq<(Seq<char>, bool)>, sets: Seq<(Seq<char>, Seq<(Seq<char>, Seq<char>, Seq<char>)>)>, k: int)
    requires
        0 <= k <= sets.len(),
        load_variables(acc, sets.take(k)) is Err,
    ensures
        load_variables(acc, sets) == load_variables(acc, sets.take(k)),
    decreases sets.len(),
{
    if k == sets.len() {
        assert(sets.take(k) =~= sets);
    } else {
        assert(sets.drop_last().take(k) =~= sets.take(k));
        lemma_load_variables_prefix_err(acc, sets.drop_last(), k);
    }
}

/// When loading the first packages already fails, loading all fails the
/// same way.
proof fn lemma_load_packages_prefix_err(acc: Seq<(Seq<char>, DialogueGraphView)>, ps: Seq<(bool, Seq<ModelView>)>, k: int)
    requires
        0 <= k <= ps.len(),
        load_packages(acc, ps.take(k)) is Err,
    ensures
        load_packages(acc, ps) == load_packages(acc, ps.take(k)),
    decreases ps.len(),
{
    if k == ps.len() {
        assert(ps.take(k) =~= ps);
    } else {
        assert(ps.drop_last().take(k) =~= ps.take(k));
        lemma_load_packages_prefix_err(acc, ps.drop_last(), k);
    }
}

/// Variable sets as mathematical values.
pub open spec fn variable_sets_view(v: Seq<(String, Vec<(String, String, String)>)>) -> Seq<(Seq<char>, Seq<(Seq<char>, Seq<char>, Seq<char>)>)> {
    v.map_values(|e: (String, Vec<(String, String, String)>)| (e.0@, variables_view(e.1@)))
}

/// Variables as mathematical values.
pub open spec fn variables_view(v: Seq<(String, String, String)>) -> Seq<(Seq<char>, Seq<char>, Seq<char>)> {
    v.map_values(|e: (String, String, String)| (e.0@, e.1@, e.2@))
}

/// Packages as mathematical values.
pub open spec fn packages_view(v: Seq<(bool, Vec<ArticyModel>)>) -> Seq<(bool, Seq<ModelView>)> {
    v.map_values(|e: (bool, Vec<ArticyModel>)| (e.0, models_view(e.1@)))
}

/// Sets the variables (name, type, value) in order (see `set_variables`).
fn set_game_variables(g: &mut crate::vars::GlobalVariables, vars: &Vec<(String, String, String)>) -> (r: Result<(), ArticyError>)
    ensures
        match set_variables(old(g)@, variables_view(vars@)) {
            Ok(a) => r is Ok && final(g)@ == a,
            Err(e) => r matches Err(x) && x@ == e,
        },
{
    let ghost vv = variables_view(vars@);
    let ghost start = g@;
    let mut i: usize = 0;
    assert(vv.take(0) =~= Seq::<(Seq<char>, Seq<char>, Seq<char>)>::empty());
    while i < vars.len()
        invariant
            i <= vars@.len(),
            vv == variables_view(vars@),
            vv.len() == vars@.len(),
            start == old(g)@,
            set_variables(start, vv.take(i as int)) == Ok::<Seq<(Seq<char>, bool)>, ErrorView>(g@),
        decreases vars.len() - i,
    {
        let (name, ty, value) = &vars[i];
        assert(vv.take(i + 1).drop_last() =~= vv.take(i as int));
        assert(vv.take(i + 1).last() == (name@, ty@, value@));
        if !str_is(ty, "Boolean") {
            proof {
                lemma_set_variables_prefix_err(start, vv, i + 1);
            }
            return Err(ArticyError::InvalidVariable(ty.clone()));
        }
        match parse_bool_value(value) {
            None => {
                proof {
                    lemma_set_variables_prefix_err(start, vv, i + 1);
                }
                return Err(ArticyError::InvalidVariable(value.clone()));
            },
            Some(b) => {
                g.insert(name.clone(), b);
            },
        }
        i = i + 1;
    }
    assert(vv.take(i as int) =~= vv);
    Ok(())
}

/// Loads a project: the dialogues of its packages (see `load_packages`),
/// then its global variables (see `load_variables`); or the first error.
pub fn load_project(packages: &Vec<(bool, Vec<ArticyModel>)>, variable_sets: &Vec<(String, Vec<(String, String, String)>)>) -> (r: Result<Articy, ArticyError>)
    requires
        forall|i: int| 0 <= i < packages@.len() ==> (#[trigger] packages@[i]).1@.len() < usize::MAX,
    ensures
        match load_packages(Seq::empty(), packages_view(packages@)) {
            Err(e) => r matches Err(x) && x@ == e,
            Ok(ds) => match load_variables(Seq::empty(), variable_sets_view(variable_sets@)) {
                Err(e) => r matches Err(x) && x@ == e,
                Ok(g) => r matches Ok(a) && a@.dialogues == ds && a@.global_variables == g,
            },
        },
{
    let ghost pv = packages_view(packages@);
    let mut articy = Articy::new();
    let mut i: usize = 0;
    assert(pv.take(0) =~= Seq::<(bool, Seq<ModelView>)>::empty());
    assert(articy@.dialogues =~= Seq::<(Seq<char>, DialogueGraphView)>::empty());
    while i < packages.len()
        invariant
            i <= packages@.len(),
            pv == packages_view(packages@),
            pv.len() == packages@.len(),
            forall|j: int| 0 <= j < packages@.len() ==> (#[trigger] packages@[j]).1@.len() < usize::MAX,
            load_packages(Seq::empty(), pv.take(i as int)) == Ok::<Seq<(Seq<char>, DialogueGraphView)>, ErrorView>(
                articy@.dialogues,
            ),
            articy@.global_variables.len() == 0,
        decreases packages.len() - i,
    {
        let (is_default, ms) = &packages[i];
        assert(pv.take(i + 1).drop_last() =~= pv.take(i as int));
        assert(pv.take(i + 1).last() == (*is_default, models_view(ms@)));
        if *is_default {
            match sort_package_models(ms) {
                Err(e) => {
                    proof {
                        lemma_load_packages_prefix_err(Seq::empty(), pv, i + 1);
                    }
                    return Err(e);
                },
                Ok((ds, os)) => {
                    proof {
                        lemma_sort_models_len(models_view(ms@));
                        lemma_sort_models_dialogues(models_view(ms@));
                        assert forall|j: int| 0 <= j < ds@.len() implies (#[trigger] ds@[j]).technical_name is Some
                            && ds@[j].input_pins is Some by {
                            assert(models_view(ds@)[j] == ds@[j]@);
                        }
                    }
                    match add_package_dialogues(&mut articy, &ds, &os) {
                        Ok(()) => {},
                        Err(e) => {
                            proof {
                                lemma_load_packages_prefix_err(Seq::empty(), pv, i + 1);
                            }
                            return Err(e);
                        },
                    }
                },
            }
        }
        i = i + 1;
    }
    assert(pv.take(i as int) =~= pv);
    let ghost sv = variable_sets_view(variable_sets@);
    let mut globals = crate::vars::GlobalVariables::new();
    let mut k: usize = 0;
    assert(sv.take(0) =~= Seq::<(Seq<char>, Seq<(Seq<char>, Seq<char>, Seq<char>)>)>::empty());
    while k < variable_sets.len()
        invariant
            k <= variable_sets@.len(),
            sv == variable_sets_view(variable_sets@),
            sv.len() == variable_sets@.len(),
            pv == packages_view(packages@),
            load_packages(Seq::empty(), pv) == Ok::<Seq<(Seq<char>, DialogueGraphView)>, ErrorView>(articy@.dialogues),
            load_variables(Seq::empty(), sv.take(k as int)) == Ok::<Seq<(Seq<char>, bool)>, ErrorView>(
                globals@,
            ),
        decreases variable_sets.len() - k,
    {
        let (namespace, vars) = &variable_sets[k];
        assert(sv.take(k + 1).drop_last() =~= sv.take(k as int));
        assert(sv.take(k + 1).last() == (namespace@, variables_view(vars@)));
        if str_is(namespace, "Game") {
            let ghost before = globals@;
            match set_game_variables(&mut globals, vars) {
                Ok(()) => {},
                Err(e) => {
                    proof {
                        assert(set_variables(before, variables_view(vars@)) == Err::<Seq<(Seq<char>, bool)>, ErrorView>(e@));
                        assert(load_variables(Seq::empty(), sv.take(k + 1)) == Err::<Seq<(Seq<char>, bool)>, ErrorView>(e@));
                        lemma_load_variables_prefix_err(Seq::empty(), sv, k + 1);
                    }
                    return Err(e);
                },
            }
        }
        k = k + 1;
    }
    assert(sv.take(k as int) =~= sv);
    articy.set_global_variables(globals);
    Ok(articy)
}

/// Every dialogue a package's models are sorted into has a technical name
/// and input pins.
proof fn lemma_sort_models_dialogues(ms: Seq<ModelView>)
    requires
        sort_models(ms) is Ok,
    ensures
        forall|j: int|
            0 <= j < ok_value(sort_models(ms)).0.len() ==> (#[trigger] ok_value(sort_models(ms)).0[j]).technical_name
                is Some && ok_value(sort_models(ms)).0[j].input_pins is Some,
    decreases ms.len(),
{
    if ms.len() > 0 {
        lemma_sort_models_dialogues(ms.drop_last());
    }
}

} // verus!
