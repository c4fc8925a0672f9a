use std::collections::VecDeque;

use vstd::prelude::*;

use crate::articy::{
    duplicate_ids, ids_view, instructions_view, ArticyDialogue, ArticyDialogueInstruction,
    ArticyDialogueKind, ArticyId, DialogueGraphView, InstructionView, KindView, NodeView,
};
use crate::text::{cut_between_chars, fully_typed, text_typed_out, TYPEWRITER_ALL};
use crate::vars::{key_lookup, GlobalVariables};

verus! {

/// Who says a line of dialogue.
#[derive(Clone, Copy, Debug, PartialEq, Eq, Hash, Structural)]
pub enum Speaker {
    NoOne,
    Player,
    General,
    WarChef1,
    WarChef2,
    WarChef3,
    WarChef4,
    WarChef5,
    Mobling,
    StabbyRat,
    ShootyRat,
    Scoutling,
    Deserter,
    BlastyRat,
    Narrator,
}

/// Which text box a speaker's lines appear in.
#[derive(Clone, Copy, Debug, PartialEq, Eq, Structural)]
pub enum SpeakerKind {
    Friendly,
    Enemy,
    Unit,
}

/// The text box a speaker's lines appear in.
pub open spec fn speaker_kind_of(s: Speaker) -> SpeakerKind {
    match s {
        Speaker::Player | Speaker::General => SpeakerKind::Friendly,
        Speaker::WarChef1 | Speaker::WarChef2 | Speaker::WarChef3 | Speaker::WarChef4
        | Speaker::WarChef5 => SpeakerKind::Enemy,
        _ => SpeakerKind::Unit,
    }
}

/// The name shown above a speaker's lines.
pub open spec fn speaker_name(s: Speaker) -> Seq<char> {
    match s {
        Speaker::NoOne => ""@,
        Speaker::Player => "War Chef"@,
        Speaker::General => "General Ratso"@,
        Speaker::WarChef1 => "Glut Rattan"@,
        Speaker::WarChef2 => "Field Marshal Toothsy"@,
        Speaker::WarChef3 => "Rattin Hood"@,
        Speaker::WarChef4 => "Archmage Ratus"@,
        Speaker::WarChef5 => "Chompers the Barbarian"@,
        Speaker::Mobling => "Mobling"@,
        Speaker::StabbyRat => "Stabby-Rat"@,
        Speaker::ShootyRat => "Shooty-Rat"@,
        Speaker::Scoutling => "Scoutling"@,
        Speaker::Deserter => "Deserter"@,
        Speaker::BlastyRat => "Blasty-Rat"@,
        Speaker::Narrator => "Narrator"@,
    }
}

impl Speaker {
    /// The text box this speaker's lines appear in.
    pub fn speaker_kind(&self) -> (r: SpeakerKind)
        ensures
            r == speaker_kind_of(*self),
    {
        match self {
            Speaker::Player | Speaker::General => SpeakerKind::Friendly,
            Speaker::WarChef1 | Speaker::WarChef2 | Speaker::WarChef3 | Speaker::WarChef4
            | Speaker::WarChef5 => SpeakerKind::Enemy,
            _ => SpeakerKind::Unit,
        }
    }

    /// The name shown above this speaker's lines.
    pub fn name(&self) -> (r: &'static str)
        ensures
            r@ == speaker_name(*self),
    {
        match self {
            Speaker::NoOne => "",
            Speaker::Player => "War Chef",
            Speaker::General => "General Ratso",
            Speaker::WarChef1 => "Glut Rattan",
            Speaker::WarChef2 => "Field Marshal Toothsy",
            Speaker::WarChef3 => "Rattin Hood",
            Speaker::WarChef4 => "Archmage Ratus",
            Speaker::WarChef5 => "Chompers the Barbarian",
            Speaker::Mobling => "Mobling",
            Speaker::StabbyRat => "Stabby-Rat",
            Speaker::ShootyRat => "Shooty-Rat",
            Speaker::Scoutling => "Scoutling",
            Speaker::Deserter => "Deserter",
            Speaker::BlastyRat => "Blasty-Rat",
            Speaker::Narrator => "Narrator",
        }
    }
}


/// What the dialogue box shows: a line to read, or choices to pick from.
#[derive(Debug)]
pub enum DialogueAction {
    Text { speaker: Speaker, text: String, children: Vec<ArticyId> },
    Choice { choices: Vec<(String, Vec<ArticyId>)> },
}

/// A dialogue action as a mathematical value.
pub enum ActionView {
    Text { speaker: Speaker, text: Seq<char>, children: Seq<Seq<char>> },
    Choice { choices: Seq<(Seq<char>, Seq<Seq<char>>)> },
}

/// The choices as mathematical values.
pub open spec fn choices_view(c: Seq<(String, Vec<ArticyId>)>) -> Seq<(Seq<char>, Seq<Seq<char>>)> {
    c.map_values(|e: (String, Vec<ArticyId>)| (e.0@, ids_view(e.1@)))
}

impl View for DialogueAction {
    type V = ActionView;

    open spec fn view(&self) -> ActionView {
        match self {
            DialogueAction::Text { speaker, text, children } => ActionView::Text {
                speaker: *speaker,
                text: text@,
                children: ids_view(children@),
            },
            DialogueAction::Choice { choices } => ActionView::Choice { choices: choices_view(choices@) },
        }
    }
}

/// An instruction that a dialogue reached, for the game to carry out.
#[derive(Debug)]
pub struct DialogueEvent {
    pub instruction: ArticyDialogueInstruction,
}

/// A dialogue waiting to be played.
#[derive(Debug)]
pub struct Script {
    dialogue: ArticyDialogue,
}

impl View for Script {
    type V = DialogueGraphView;

    closed spec fn view(&self) -> DialogueGraphView {
        self.dialogue@
    }
}

impl Script {
    /// A script that plays `dialogue`.
    pub fn new(dialogue: ArticyDialogue) -> (r: Script)
        ensures
            r@ == dialogue@,
    {
        Script { dialogue }
    }

    /// The dialogue graph the script plays.
    pub fn dialogue(&self) -> (r: &ArticyDialogue)
        ensures
            r@ == self@,
    {
        &self.dialogue
    }
}

/// The dialogue system: what is shown, the scripts still to play (the first is
/// playing) and the instructions reached but not yet handed to the game.
#[derive(Debug)]
pub struct Dialogue {
    action: Option<DialogueAction>,
    scripts: VecDeque<Script>,
    events: Vec<DialogueEvent>,
}

/// The state of the dialogue system as a mathematical value.
pub struct DialogueState {
    pub action: Option<ActionView>,
    pub scripts: Seq<DialogueGraphView>,
    pub events: Seq<InstructionView>,
}

/// The action as a mathematical value.
pub open spec fn action_view(a: Option<DialogueAction>) -> Option<ActionView> {
    match a {
        Some(x) => Some(x@),
        None => None,
    }
}

impl View for Dialogue {
    type V = DialogueState;

    closed spec fn view(&self) -> DialogueState {
        DialogueState {
            action: action_view(self.action),
            scripts: self.scripts@.map_values(|s: Script| s@),
            events: self.events@.map_values(|e: DialogueEvent| e.instruction@),
        }
    }
}

/// Whether every identifier names a node of the dialogue.
pub open spec fn all_found(d: DialogueGraphView, ids: Seq<Seq<char>>) -> bool {
    forall|i: int| 0 <= i < ids.len() ==> (#[trigger] key_lookup(d.nodes, ids[i])) is Some
}

/// The nodes the identifiers name.
pub open spec fn found_nodes(d: DialogueGraphView, ids: Seq<Seq<char>>) -> Seq<NodeView> {
    Seq::new(ids.len(), |i: int| key_lookup(d.nodes, ids[i]).unwrap())
}

/// Whether every node is a line of text.
pub open spec fn all_messages(ns: Seq<NodeView>) -> bool {
    forall|i: int| 0 <= i < ns.len() ==> (#[trigger] ns[i]).kind is Message
}

/// The choices offered by message nodes: each line with where it leads.
pub open spec fn choices_of(ns: Seq<NodeView>) -> Seq<(Seq<char>, Seq<Seq<char>>)> {
    Seq::new(ns.len(), |i: int| (ns[i].kind->text, ns[i].children))
}

/// What showing the nodes `ids` does, with at most `fuel` nodes passed through
/// on the way: `None` when a node or variable is missing, or the fuel runs out.
pub open spec fn show_steps(st: DialogueState, ids: Seq<Seq<char>>, vars: Seq<(Seq<char>, bool)>, fuel: nat) -> Option<DialogueState>
    decreases fuel,
{
    if st.scripts.len() == 0 {
        Some(st)
    } else if ids.len() > 1 {
        let d = st.scripts[0];
        if !all_found(d, ids) {
            None
        } else if all_messages(found_nodes(d, ids)) {
            Some(
                DialogueState {
                    action: Some(ActionView::Choice { choices: choices_of(found_nodes(d, ids)) }),
                    ..st
                },
            )
        } else {
            Some(
                DialogueState {
                    action: Some(
                        ActionView::Text {
                            speaker: Speaker::NoOne,
                            text: "INVALID DIALOGUE"@,
                            children: Seq::empty(),
                        },
                    ),
                    ..st
                },
            )
        }
    } else if ids.len() == 1 {
        match key_lookup(st.scripts[0].nodes, ids[0]) {
            None => None,
            Some(node) => match node.kind {
                KindView::Message { speaker, text } => Some(
                    DialogueState {
                        action: Some(ActionView::Text { speaker, text, children: node.children }),
                        ..st
                    },
                ),
                KindView::Instruction { instructions } => if fuel == 0 {
                    None
                } else {
                    show_steps(
                        DialogueState { events: st.events + instructions, ..st },
                        node.children,
                        vars,
                        (fuel - 1) as nat,
                    )
                },
                KindView::Condition { variable, equals } => match key_lookup(vars, variable) {
                    None => None,
                    Some(value) => if fuel == 0 {
                        None
                    } else {
                        let idx: int = if value == equals {
                            0
                        } else {
                            1
                        };
                        if idx < node.children.len() {
                            show_steps(st, seq![node.children[idx]], vars, (fuel - 1) as nat)
                        } else {
                            show_steps(st, Seq::empty(), vars, (fuel - 1) as nat)
                        }
                    },
                },
                KindView::Noop => if fuel == 0 {
                    None
                } else {
                    show_steps(st, node.children, vars, (fuel - 1) as nat)
                },
            },
        }
    } else {
        let rest = st.scripts.drop_first();
        if rest.len() > 0 {
            if fuel == 0 {
                None
            } else {
                show_steps(DialogueState { scripts: rest, ..st }, rest[0].children, vars, (fuel - 1) as nat)
            }
        } else {
            Some(DialogueState { scripts: rest, action: None, ..st })
        }
    }
}

/// What showing `ids` does, passing through at most as many nodes as a
/// machine word counts: `None` when a node or variable is missing or showing
/// does not come to rest.
pub open spec fn shown(st: DialogueState, ids: Seq<Seq<char>>, vars: Seq<(Seq<char>, bool)>) -> Option<DialogueState> {
    show_steps(st, ids, vars, usize::MAX as nat)
}

/// Nothing is on screen exactly when no script is queued.
pub open spec fn idle_matches(st: DialogueState) -> bool {
    (st.action is None) == (st.scripts.len() == 0)
}

/// The state with one more script at the back of the queue.
pub open spec fn queued(st: DialogueState, g: DialogueGraphView) -> DialogueState {
    DialogueState { scripts: st.scripts.push(g), ..st }
}

/// Whether `a` is a prefix of `b`.
pub open spec fn starts_events(a: Seq<InstructionView>, b: Seq<InstructionView>) -> bool {
    a.len() <= b.len() && b.subrange(0, a.len() as int) == a
}

/// Showing nodes of a playing script ends with something on screen exactly
/// when a script is still queued, and only ever adds instructions after those
/// already reached.
pub proof fn law_show_settles(st: DialogueState, ids: Seq<Seq<char>>, vars: Seq<(Seq<char>, bool)>, fuel: nat)
    requires
        show_steps(st, ids, vars, fuel) is Some,
        st.scripts.len() > 0 || idle_matches(st),
    ensures
        idle_matches(show_steps(st, ids, vars, fuel).unwrap()),
        starts_events(st.events, show_steps(st, ids, vars, fuel).unwrap().events),
    decreases fuel,
{
    let r = show_steps(st, ids, vars, fuel).unwrap();
    if st.scripts.len() > 0 && ids.len() == 1 {
        match key_lookup(st.scripts[0].nodes, ids[0]) {
            None => {},
            Some(node) => match node.kind {
                KindView::Message { .. } => {},
                KindView::Instruction { instructions } => {
                    let next = DialogueState { events: st.events + instructions, ..st };
                    law_show_settles(next, node.children, vars, (fuel - 1) as nat);
                    assert(r.events.subrange(0, st.events.len() as int) =~= r.events.subrange(
                        0,
                        next.events.len() as int,
                    ).subrange(0, st.events.len() as int));
                    assert(next.events.subrange(0, st.events.len() as int) =~= st.events);
                },
                KindView::Condition { variable, equals } => {
                    let value = key_lookup(vars, variable).unwrap();
                    let idx: int = if value == equals {
                        0
                    } else {
                        1
                    };
                    if idx < node.children.len() {
                        law_show_settles(st, seq![node.children[idx]], vars, (fuel - 1) as nat);
                    } else {
                        law_show_settles(st, Seq::empty(), vars, (fuel - 1) as nat);
                    }
                },
                KindView::Noop => {
                    law_show_settles(st, node.children, vars, (fuel - 1) as nat);
                },
            },
        }
    } else if st.scripts.len() > 0 && ids.len() == 0 {
        let rest = st.scripts.drop_first();
        if rest.len() > 0 {
            law_show_settles(DialogueState { scripts: rest, ..st }, rest[0].children, vars, (fuel - 1) as nat);
        }
    }
    assert(st.events.subrange(0, st.events.len() as int) =~= st.events);
}

/// Where the choice at `index` leads, when a choice with that many options
/// is on screen.
pub open spec fn choice_target(a: Option<ActionView>, index: int) -> Option<Seq<Seq<char>>> {
    match a {
        Some(ActionView::Choice { choices }) => if 0 <= index < choices.len() {
            Some(choices[index].1)
        } else {
            None
        },
        _ => None,
    }
}

/// Who is speaking while `a` is on screen.
pub open spec fn active_speaker_of(a: Option<ActionView>) -> Speaker {
    match a {
        Some(ActionView::Text { speaker, .. }) => speaker,
        Some(ActionView::Choice { .. }) => Speaker::Player,
        None => Speaker::NoOne,
    }
}

/// The portrait skin shown for a speaker, for those who have one.
pub open spec fn portrait_skin_of(s: Speaker) -> Option<Seq<char>> {
    match s {
        Speaker::Player => Some("player"@),
        Speaker::General => Some("general"@),
        Speaker::WarChef1 => Some("wc1"@),
        Speaker::WarChef2 => Some("wc2"@),
        _ => None,
    }
}

/// The portrait skin shown for a speaker, for those who have one.
pub fn portrait_skin(s: Speaker) -> (r: Option<&'static str>)
    ensures
        match r {
            Some(x) => portrait_skin_of(s) == Some(x@),
            None => portrait_skin_of(s) is None,
        },
{
    match s {
        Speaker::Player => Some("player"),
        Speaker::General => Some("general"),
        Speaker::WarChef1 => Some("wc1"),
        Speaker::WarChef2 => Some("wc2"),
        _ => None,
    }
}

/// A copy of what is on screen.
fn duplicate_action(a: &Option<DialogueAction>) -> (r: Option<DialogueAction>)
    ensures
        action_view(r) == action_view(*a),
{
    match a {
        None => None,
        Some(DialogueAction::Text { speaker, text, children }) => Some(
            DialogueAction::Text { speaker: *speaker, text: text.clone(), children: duplicate_ids(children) },
        ),
        Some(DialogueAction::Choice { choices }) => {
            let mut c: Vec<(String, Vec<ArticyId>)> = Vec::new();
            let mut i: usize = 0;
            while i < choices.len()
                invariant
                    i <= choices@.len(),
                    choices_view(c@) =~= choices_view(choices@).take(i as int),
                decreases choices.len() - i,
            {
                let ghost before = c@;
                let entry = (choices[i].0.clone(), duplicate_ids(&choices[i].1));
                c.push(entry);
                assert(choices_view(c@) =~= choices_view(before).push((entry.0@, ids_view(entry.1@))));
                i = i + 1;
            }
            assert(choices_view(choices@).take(i as int) =~= choices_view(choices@));
            Some(DialogueAction::Choice { choices: c })
        },
    }
}

impl Dialogue {
    /// An idle dialogue system: nothing shown, nothing queued.
    pub fn new() -> (r: Dialogue)
        ensures
            r@.action is None,
            r@.scripts.len() == 0,
            r@.events.len() == 0,
    {
        Dialogue { action: None, scripts: VecDeque::new(), events: Vec::new() }
    }

    /// Whether a line or a choice is on screen.
    pub fn active(&self) -> (r: bool)
        ensures
            r == self@.action is Some,
    {
        self.action.is_some()
    }

    /// Takes the dialogue off the screen and drops every queued script.
    pub fn clear(&mut self)
        ensures
            final(self)@.action is None,
            final(self)@.scripts.len() == 0,
            final(self)@.events == old(self)@.events,
    {
        self.action = None;
        self.scripts.clear();
        assert(self.scripts@.map_values(|s: Script| s@) =~= Seq::<DialogueGraphView>::empty());
    }

    /// What is on screen.
    pub fn action(&self) -> (r: &Option<DialogueAction>)
        ensures
            action_view(*r) == self@.action,
    {
        &self.action
    }

    /// Hands over the instructions reached so far, oldest first.
    pub fn take_events(&mut self) -> (r: Vec<DialogueEvent>)
        ensures
            r@.map_values(|e: DialogueEvent| e.instruction@) == old(self)@.events,
            final(self)@.events.len() == 0,
            final(self)@.action == old(self)@.action,
            final(self)@.scripts == old(self)@.scripts,
    {
        let mut r = Vec::new();
        std::mem::swap(&mut r, &mut self.events);
        assert(self.events@.map_values(|e: DialogueEvent| e.instruction@) =~= Seq::<InstructionView>::empty());
        r
    }

    /// Shows the nodes `ids` of the playing script: several message nodes
    /// become a choice, one node is shown or passed through (instructions are
    /// recorded, conditions pick a child), and no node at all moves on to the
    /// next script.
    fn show_fuel(&mut self, ids: Vec<ArticyId>, vars: &GlobalVariables, fuel: usize) -> (r: bool)
        ensures
            r == show_steps(old(self)@, ids_view(ids@), vars@, fuel as nat) is Some,
            r ==> Some(final(self)@) == show_steps(old(self)@, ids_view(ids@), vars@, fuel as nat),
        decreases fuel,
    {
        let ghost st = self@;
        let ghost idv = ids_view(ids@);
        if self.scripts.len() == 0 {
            return true;
        }
        assert(self.scripts@.map_values(|s: Script| s@)[0] == self.scripts@[0]@);
        if ids.len() > 1 {
            let mut nodes: Vec<crate::articy::ArticyDialogueNode> = Vec::new();
            let mut i: usize = 0;
            while i < ids.len()
                invariant
                    i <= ids@.len(),
                    idv == ids_view(ids@),
                    st == self@,
                    st.scripts.len() > 0,
                    st.scripts[0] == self.scripts@[0]@,
                    nodes@.len() == i,
                    forall|j: int| 0 <= j < i ==> (#[trigger] key_lookup(st.scripts[0].nodes, idv[j])) is Some,
                    forall|j: int|
                        0 <= j < i ==> (#[trigger] nodes@[j])@ == key_lookup(st.scripts[0].nodes, idv[j]).unwrap(),
                decreases ids.len() - i,
            {
                let d = &self.scripts[0].dialogue;
                match d.find_node(&ids[i]) {
                    Some(p) => {
                        assert(d@.nodes[p as int] == (d.nodes@[p as int].0@, d.nodes@[p as int].1@));
                        nodes.push(d.nodes[p].1.duplicate());
                    },
                    None => {
                        assert(idv[i as int] == ids@[i as int]@);
                        assert(key_lookup(st.scripts[0].nodes, idv[i as int]) is None);
                        assert(!all_found(st.scripts[0], idv));
                        return false;
                    },
                }
                i = i + 1;
            }
            assert(all_found(st.scripts[0], idv));
            let ghost ns = found_nodes(st.scripts[0], idv);
            let mut valid = true;
            let mut k: usize = 0;
            while k < nodes.len()
                invariant
                    k <= nodes@.len(),
                    nodes@.len() == ns.len(),
                    forall|m: int| 0 <= m < nodes@.len() ==> (#[trigger] nodes@[m])@ == ns[m],
                    valid == forall|j: int| 0 <= j < k ==> (#[trigger] nodes@[j]).kind@ is Message,
                decreases nodes.len() - k,
            {
                match &nodes[k].kind {
                    ArticyDialogueKind::Message { .. } => {},
                    _ => {
                        valid = false;
                    },
                }
                k = k + 1;
            }
            assert(valid == all_messages(ns)) by {
                assert forall|m: int| 0 <= m < ns.len() implies (#[trigger] ns[m]).kind is Message
                    == nodes@[m].kind@ is Message by {
                    assert(nodes@[m]@ == ns[m]);
                }
            }
            if valid {
                let mut choices: Vec<(String, Vec<ArticyId>)> = Vec::new();
                let mut j: usize = 0;
                while j < nodes.len()
                    invariant
                        j <= nodes@.len(),
                        nodes@.len() == ns.len(),
                        forall|m: int| 0 <= m < nodes@.len() ==> (#[trigger] nodes@[m])@ == ns[m],
                        all_messages(ns),
                        choices_view(choices@) =~= choices_of(ns).take(j as int),
                    decreases nodes.len() - j,
                {
                    assert(ns[j as int].kind is Message);
                    match &nodes[j].kind {
                        ArticyDialogueKind::Message { text, .. } => {
                            let entry = (text.clone(), duplicate_ids(&nodes[j].children));
                            let ghost before = choices@;
                            choices.push(entry);
                            assert(choices_view(choices@) =~= choices_view(before).push(
                                (entry.0@, ids_view(entry.1@)),
                            ));
                            assert(choices_of(ns).take(j + 1) =~= choices_of(ns).take(
                                j as int,
                            ).push(choices_of(ns)[j as int]));
                        },
                        _ => {},
                    }
                    j = j + 1;
                }
                assert(choices_of(ns).take(j as int) =~= choices_of(ns));
                self.action = Some(DialogueAction::Choice { choices });
                true
            } else {
                self.action = Some(
                    DialogueAction::Text {
                        speaker: Speaker::NoOne,
                        text: "INVALID DIALOGUE".to_owned(),
                        children: Vec::new(),
                    },
                );
                assert(ids_view(Seq::<ArticyId>::empty()) =~= Seq::<Seq<char>>::empty());
                true
            }
        } else if ids.len() == 1 {
            let d = &self.scripts[0].dialogue;
            let found = d.find_node(&ids[0]);
            let p = match found {
                Some(p) => p,
                None => {
                    return false;
                },
            };
            let node = d.nodes[p].1.duplicate();
            assert(d@.nodes[p as int] == (d.nodes@[p as int].0@, d.nodes@[p as int].1@));
            assert(key_lookup(st.scripts[0].nodes, idv[0]) == Some(node@));
            match node.kind {
                ArticyDialogueKind::Message { speaker, text } => {
                    self.action = Some(DialogueAction::Text { speaker, text, children: node.children });
                    true
                },
                ArticyDialogueKind::Instruction { instructions } => {
                    if fuel == 0 {
                        return false;
                    }
                    let mut n: usize = 0;
                    while n < instructions.len()
                        invariant
                            n <= instructions@.len(),
                            self@.action == st.action,
                            self@.scripts == st.scripts,
                            self@.events =~= st.events + instructions_view(instructions@).take(
                                n as int,
                            ),
                        decreases instructions.len() - n,
                    {
                        let ev = DialogueEvent { instruction: instructions[n].duplicate() };
                        let ghost before = self.events@;
                        self.events.push(ev);
                        assert(self.events@.map_values(|e: DialogueEvent| e.instruction@) =~= before.map_values(
                            |e: DialogueEvent| e.instruction@,
                        ).push(instructions@[n as int]@));
                        n = n + 1;
                    }
                    assert(instructions_view(instructions@).take(n as int) =~= instructions_view(
                        instructions@,
                    ));
                    self.show_fuel(node.children, vars, fuel - 1)
                },
                ArticyDialogueKind::Condition { variable, equals } => {
                    let value = match vars.get(&variable) {
                        Some(v) => v,
                        None => {
                            return false;
                        },
                    };
                    if fuel == 0 {
                        return false;
                    }
                    let idx: usize = if value == equals {
                        0
                    } else {
                        1
                    };
                    if idx < node.children.len() {
                        let child = node.children[idx].duplicate();
                        let next = vec![child];
                        assert(ids_view(next@) =~= seq![ids_view(node.children@)[idx as int]]);
                        self.show_fuel(next, vars, fuel - 1)
                    } else {
                        let next: Vec<ArticyId> = Vec::new();
                        assert(ids_view(next@) =~= Seq::<Seq<char>>::empty());
                        self.show_fuel(next, vars, fuel - 1)
                    }
                },
                ArticyDialogueKind::Noop => {
                    if fuel == 0 {
                        return false;
                    }
                    self.show_fuel(node.children, vars, fuel - 1)
                },
            }
        } else {
            let _ = self.scripts.pop_front();
            assert(self.scripts@.map_values(|s: Script| s@) =~= st.scripts.drop_first());
            if self.scripts.len() > 0 {
                assert(self.scripts@.map_values(|s: Script| s@)[0] == self.scripts@[0]@);
                if fuel == 0 {
                    return false;
                }
                let children = duplicate_ids(&self.scripts[0].dialogue.children);
                self.show_fuel(children, vars, fuel - 1)
            } else {
                self.action = None;
                true
            }
        }
    }

    /// Shows the nodes `ids` of the playing script (see `shown`), and says
    /// whether showing came to rest; when it did not (a node or a variable is
    /// missing, or the nodes lead round in a circle) nothing changes.
    pub fn show(&mut self, ids: Vec<ArticyId>, vars: &GlobalVariables) -> (r: bool)
        ensures
            r == shown(old(self)@, ids_view(ids@), vars@) is Some,
            r ==> Some(final(self)@) == shown(old(self)@, ids_view(ids@), vars@),
            !r ==> final(self)@ == old(self)@,
    {
        let backup = self.duplicate();
        let r = self.show_fuel(ids, vars, usize::MAX);
        if !r {
            *self = backup;
        }
        r
    }

    /// Queues a script. With nothing on screen it starts playing at once
    /// (see `show`), and the result says whether showing its first nodes came
    /// to rest (when not, the script stays queued and nothing is shown);
    /// otherwise it waits behind the others.
    pub fn queue(&mut self, script: Script, vars: &GlobalVariables) -> (r: bool)
        ensures
            old(self)@.action is None ==> {
                &&& r == shown(queued(old(self)@, script@), script@.children, vars@) is Some
                &&& r ==> Some(final(self)@) == shown(queued(old(self)@, script@), script@.children, vars@)
                &&& !r ==> final(self)@ == queued(old(self)@, script@)
            },
            old(self)@.action is Some ==> r && final(self)@ == queued(old(self)@, script@),
    {
        let ghost g = script@;
        if self.action.is_none() {
            let children = duplicate_ids(&script.dialogue.children);
            self.scripts.push_back(script);
            assert(self.scripts@.map_values(|s: Script| s@) =~= old(self)@.scripts.push(g));
            self.show(children, vars)
        } else {
            self.scripts.push_back(script);
            assert(self.scripts@.map_values(|s: Script| s@) =~= old(self)@.scripts.push(g));
            true
        }
    }

    /// Moves past the line on screen to the nodes it leads to (see `show`).
    /// With a choice or nothing on screen, nothing changes.
    pub fn continue_text(&mut self, vars: &GlobalVariables) -> (r: bool)
        ensures
            old(self)@.action matches Some(ActionView::Text { children, .. }) ==> {
                &&& r == shown(old(self)@, children, vars@) is Some
                &&& r ==> Some(final(self)@) == shown(old(self)@, children, vars@)
                &&& !r ==> final(self)@ == old(self)@
            },
            !(old(self)@.action matches Some(ActionView::Text { .. })) ==> r && final(self)@ == old(self)@,
    {
        let next = match &self.action {
            Some(DialogueAction::Text { children, .. }) => Some(duplicate_ids(children)),
            _ => None,
        };
        match next {
            Some(ids) => self.show(ids, vars),
            None => true,
        }
    }

    /// The player presses on while `typed_bytes` bytes of the line are shown:
    /// a line not yet typed out is left on screen (the result is `None`, and
    /// the caller shows all of it); a line typed out moves on to where it leads
    /// (see `continue_text`), and the result says whether showing came to rest.
    /// With a choice or nothing on screen, nothing changes and the result is
    /// `None`.
    pub fn press_on(&mut self, typed_bytes: usize, vars: &GlobalVariables) -> (r: Option<bool>)
        requires
            old(self)@.action matches Some(ActionView::Text { text, .. }) ==> {
                &&& cut_between_chars(text, typed_bytes as nat)
                &&& cut_between_chars(text, TYPEWRITER_ALL as nat)
            },
        ensures
            old(self)@.action matches Some(ActionView::Text { text, children, .. }) ==> {
                if fully_typed(text, typed_bytes as nat) {
                    &&& r is Some
                    &&& r.unwrap() == shown(old(self)@, children, vars@) is Some
                    &&& r.unwrap() ==> Some(final(self)@) == shown(old(self)@, children, vars@)
                    &&& !r.unwrap() ==> final(self)@ == old(self)@
                } else {
                    r is None && final(self)@ == old(self)@
                }
            },
            !(old(self)@.action matches Some(ActionView::Text { .. })) ==> r is None && final(self)@ == old(self)@,
    {
        let typed = match &self.action {
            Some(DialogueAction::Text { text, .. }) => Some(text_typed_out(text.as_str(), typed_bytes)),
            _ => None,
        };
        match typed {
            Some(true) => Some(self.continue_text(vars)),
            _ => None,
        }
    }

    /// Picks the choice at `index` (counted from 0) and shows where it leads
    /// (see `show`). With a line or nothing on screen, or no such choice,
    /// nothing changes.
    pub fn pick_choice(&mut self, index: usize, vars: &GlobalVariables) -> (r: bool)
        ensures
            choice_target(old(self)@.action, index as int) matches Some(ids) ==> {
                &&& r == shown(old(self)@, ids, vars@) is Some
                &&& r ==> Some(final(self)@) == shown(old(self)@, ids, vars@)
                &&& !r ==> final(self)@ == old(self)@
            },
            choice_target(old(self)@.action, index as int) is None ==> r && final(self)@ == old(self)@,
    {
        let next = match &self.action {
            Some(DialogueAction::Choice { choices }) => if index < choices.len() {
                Some(duplicate_ids(&choices[index].1))
            } else {
                None
            },
            _ => None,
        };
        match next {
            Some(ids) => self.show(ids, vars),
            None => true,
        }
    }

    /// A copy of the dialogue system.
    pub fn duplicate(&self) -> (r: Dialogue)
        ensures
            r@ == self@,
    {
        let action = duplicate_action(&self.action);
        let mut scripts: VecDeque<Script> = VecDeque::new();
        let mut i: usize = 0;
        while i < self.scripts.len()
            invariant
                i <= self.scripts@.len(),
                scripts@.map_values(|s: Script| s@) =~= self.scripts@.take(i as int).map_values(|s: Script| s@),
            decreases self.scripts.len() - i,
        {
            let ghost before = scripts@;
            let copy = Script { dialogue: self.scripts[i].dialogue.duplicate() };
            scripts.push_back(copy);
            assert(scripts@.map_values(|s: Script| s@) =~= before.map_values(|s: Script| s@).push(self.scripts@[i as int]@));
            assert(self.scripts@.take(i + 1) =~= self.scripts@.take(i as int).push(self.scripts@[i as int]));
            i = i + 1;
        }
        assert(self.scripts@.take(i as int) =~= self.scripts@);
        let mut events: Vec<DialogueEvent> = Vec::new();
        let mut k: usize = 0;
        while k < self.events.len()
            invariant
                k <= self.events@.len(),
                events@.map_values(|e: DialogueEvent| e.instruction@) =~= self.events@.take(k as int).map_values(
                    |e: DialogueEvent| e.instruction@,
                ),
            decreases self.events.len() - k,
        {
            let ghost before = events@;
            events.push(DialogueEvent { instruction: self.events[k].instruction.duplicate() });
            assert(events@.map_values(|e: DialogueEvent| e.instruction@) =~= before.map_values(
                |e: DialogueEvent| e.instruction@,
            ).push(self.events@[k as int].instruction@));
            assert(self.events@.take(k + 1) =~= self.events@.take(k as int).push(self.events@[k as int]));
            k = k + 1;
        }
        assert(self.events@.take(k as int) =~= self.events@);
        Dialogue { action, scripts, events }
    }

    /// Who is speaking: the speaker of a line, the player for a choice, and
    /// no one when nothing is on screen.
    pub fn active_speaker(&self) -> (r: Speaker)
        ensures
            r == active_speaker_of(self@.action),
    {
        match &self.action {
            Some(DialogueAction::Text { speaker, .. }) => *speaker,
            Some(DialogueAction::Choice { .. }) => Speaker::Player,
            None => Speaker::NoOne,
        }
    }
}

} // verus!
