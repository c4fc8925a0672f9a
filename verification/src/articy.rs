use vstd::prelude::*;

use crate::items::{item_name, Item};
use crate::text::{
    before_char, before_double_eq, chars_eq_str, chars_of, find_char, find_double_eq,
    first_double_eq, first_index, parse_i32, parse_i32_chars, split_char, split_chars,
    starts_with, starts_with_str, string_from_chars, sub_chars, trim, trim_chars, lemma_split_char_whole,
    lemma_first_index_at, lemma_trim_unchanged,
};
use crate::dialogue::Speaker;
use crate::units::UnitKind;
use crate::vars::{key_lookup, key_position, lemma_key_absent, lemma_key_position, lemma_key_position_at, GlobalVariables};

verus! {

/// What a dialogue instruction does to the game when it is reached.
#[derive(Debug)]
pub enum ArticyDialogueInstruction {
    AddUnits(UnitKind, usize),
    SubtractUnits(UnitKind, usize),
    AddFood(usize),
    SubtractFood(usize),
    AddItem(Item),
    SetGlobalVariable(String, bool),
}

/// An instruction as a mathematical value: names are character sequences.
pub enum InstructionView {
    AddUnits(UnitKind, usize),
    SubtractUnits(UnitKind, usize),
    AddFood(usize),
    SubtractFood(usize),
    AddItem(Item),
    SetGlobalVariable(Seq<char>, bool),
}

impl View for ArticyDialogueInstruction {
    type V = InstructionView;

    open spec fn view(&self) -> InstructionView {
        match self {
            ArticyDialogueInstruction::AddUnits(k, n) => InstructionView::AddUnits(*k, *n),
            ArticyDialogueInstruction::SubtractUnits(k, n) => InstructionView::SubtractUnits(*k, *n),
            ArticyDialogueInstruction::AddFood(n) => InstructionView::AddFood(*n),
            ArticyDialogueInstruction::SubtractFood(n) => InstructionView::SubtractFood(*n),
            ArticyDialogueInstruction::AddItem(i) => InstructionView::AddItem(*i),
            ArticyDialogueInstruction::SetGlobalVariable(v, b) => InstructionView::SetGlobalVariable(
                v@,
                *b,
            ),
        }
    }
}

impl ArticyDialogueInstruction {
    /// A copy of the instruction.
    pub fn duplicate(&self) -> (r: ArticyDialogueInstruction)
        ensures
            r@ == self@,
    {
        match self {
            ArticyDialogueInstruction::AddUnits(k, n) => ArticyDialogueInstruction::AddUnits(*k, *n),
            ArticyDialogueInstruction::SubtractUnits(k, n) => ArticyDialogueInstruction::SubtractUnits(
                *k,
                *n,
            ),
            ArticyDialogueInstruction::AddFood(n) => ArticyDialogueInstruction::AddFood(*n),
            ArticyDialogueInstruction::SubtractFood(n) => ArticyDialogueInstruction::SubtractFood(*n),
            ArticyDialogueInstruction::AddItem(i) => ArticyDialogueInstruction::AddItem(*i),
            ArticyDialogueInstruction::SetGlobalVariable(v, b) => {
                ArticyDialogueInstruction::SetGlobalVariable(v.clone(), *b)
            },
        }
    }
}

/// A parameter of an instruction call: a quoted string or a whole number.
pub enum ParamView {
    Str(Seq<char>),
    Int(i32),
}

/// A parameter of an instruction call, as it is parsed.
enum Param {
    Str(Vec<char>),
    Int(i32),
}

impl Param {
    spec fn view_param(self) -> ParamView {
        match self {
            Param::Str(s) => ParamView::Str(s@),
            Param::Int(i) => ParamView::Int(i),
        }
    }
}

/// The unit kind an instruction names.
pub open spec fn unit_kind_named(n: Seq<char>) -> Option<UnitKind> {
    if n == "Peasant"@ {
        Some(UnitKind::Peasant)
    } else if n == "Warrior"@ {
        Some(UnitKind::Warrior)
    } else if n == "Archer"@ {
        Some(UnitKind::Archer)
    } else if n == "Mage"@ {
        Some(UnitKind::Mage)
    } else if n == "Brute"@ {
        Some(UnitKind::Brute)
    } else {
        None
    }
}

/// The name a dialogue script gives a kind of unit: the kind's own name.
pub open spec fn articy_unit_name(k: UnitKind) -> Seq<char> {
    match k {
        UnitKind::Peasant => "Peasant"@,
        UnitKind::Warrior => "Warrior"@,
        UnitKind::Archer => "Archer"@,
        UnitKind::Mage => "Mage"@,
        UnitKind::Brute => "Brute"@,
    }
}

/// Each kind of unit is named in scripts by its own name and by no other:
/// that name reads back as the kind, and any name that reads as a kind is
/// that kind's name (so different names never give the same kind).
pub proof fn law_unit_names_read_back(k: UnitKind, n: Seq<char>)
    ensures
        unit_kind_named(articy_unit_name(k)) == Some(k),
        unit_kind_named(n) == Some(k) ==> n == articy_unit_name(k),
{
    reveal_strlit("Peasant");
    reveal_strlit("Warrior");
    reveal_strlit("Archer");
    reveal_strlit("Mage");
    reveal_strlit("Brute");
    assert("Warrior"@[0] != "Peasant"@[0]);
    match k {
        UnitKind::Peasant => {},
        UnitKind::Warrior => assert("Warrior"@ != "Peasant"@),
        UnitKind::Archer => {
            assert("Archer"@.len() == 6 && "Peasant"@.len() == 7 && "Warrior"@.len() == 7);
        },
        UnitKind::Mage => {
            assert("Mage"@.len() == 4 && "Peasant"@.len() == 7 && "Warrior"@.len() == 7 && "Archer"@.len() == 6);
        },
        UnitKind::Brute => {
            assert("Brute"@.len() == 5 && "Peasant"@.len() == 7 && "Warrior"@.len() == 7 && "Archer"@.len() == 6
                && "Mage"@.len() == 4);
        },
    }
}

/// The item an instruction names, by its display name.
pub open spec fn item_named(n: Seq<char>) -> Option<Item> {
    if n == "Crackling Moss"@ {
        Some(Item::CracklingMoss)
    } else if n == "Squirt Blop-Berries"@ {
        Some(Item::SquirtBlopBerries)
    } else if n == "Firemander Salts"@ {
        Some(Item::FiremanderSalts)
    } else if n == "Axe Shrooms"@ {
        Some(Item::AxeShrooms)
    } else if n == "Bog Hard-Weeds"@ {
        Some(Item::BogHardWeeds)
    } else if n == "Celery Quartz"@ {
        Some(Item::CeleryQuartz)
    } else if n == "Frosty Web-Strands"@ {
        Some(Item::FrostyWebStrands)
    } else {
        None
    }
}

/// A trimmed parameter: a quoted string (at least the two quotes) or an `i32`.
pub open spec fn parse_param(t: Seq<char>) -> Option<ParamView> {
    if t.len() >= 1 && t[0] == '"' && t.last() == '"' {
        if t.len() >= 2 {
            Some(ParamView::Str(t.subrange(1, t.len() - 1)))
        } else {
            None
        }
    } else {
        match parse_i32(t) {
            Some(v) => Some(ParamView::Int(v)),
            None => None,
        }
    }
}

/// The parameters between the parentheses, each trimmed; `None` when one is malformed.
pub open spec fn parse_params(pieces: Seq<Seq<char>>) -> Option<Seq<ParamView>>
    decreases pieces.len(),
{
    if pieces.len() == 0 {
        Some(Seq::<ParamView>::empty())
    } else {
        match (parse_params(pieces.drop_last()), parse_param(trim(pieces.last()))) {
            (Some(ps), Some(p)) => Some(ps.push(p)),
            _ => None,
        }
    }
}

/// The instruction a call of `name` with parameters `ps` stands for; extra
/// parameters are ignored.
pub open spec fn build_instruction(name: Seq<char>, ps: Seq<ParamView>) -> Option<InstructionView> {
    if name == "AddUnits"@ || name == "SubtractUnits"@ {
        if ps.len() >= 2 && ps[0] is Str && ps[1] is Int {
            match unit_kind_named(ps[0]->Str_0) {
                Some(k) => if name == "AddUnits"@ {
                    Some(InstructionView::AddUnits(k, ps[1]->Int_0 as usize))
                } else {
                    Some(InstructionView::SubtractUnits(k, ps[1]->Int_0 as usize))
                },
                None => None,
            }
        } else {
            None
        }
    } else if name == "AddFood"@ || name == "SubtractFood"@ {
        if ps.len() >= 1 && ps[0] is Int {
            if name == "AddFood"@ {
                Some(InstructionView::AddFood(ps[0]->Int_0 as usize))
            } else {
                Some(InstructionView::SubtractFood(ps[0]->Int_0 as usize))
            }
        } else {
            None
        }
    } else if name == "AddItem"@ {
        if ps.len() >= 1 && ps[0] is Str {
            match item_named(ps[0]->Str_0) {
                Some(item) => Some(InstructionView::AddItem(item)),
                None => None,
            }
        } else {
            None
        }
    } else {
        None
    }
}

/// One trimmed, non-empty statement: a call `Name(params)` or an assignment
/// `Game.variable = true|false`; `None` when it is malformed.
pub open spec fn parse_statement(st: Seq<char>) -> Option<InstructionView> {
    let op = first_index(st, '(');
    if op >= 0 {
        let cp = first_index(st, ')');
        if cp < op + 1 {
            None
        } else {
            match parse_params(split_char(st.subrange(op + 1, cp), ',')) {
                Some(ps) => build_instruction(st.take(op), ps),
                None => None,
            }
        }
    } else if starts_with(st, "Game."@) {
        let p = first_index(st, '.');
        if p < 0 {
            None
        } else {
            let asg = st.skip(p + 1);
            let e = first_index(asg, '=');
            if e < 0 {
                None
            } else {
                let var = trim(asg.take(e));
                let val = trim(before_char(asg.skip(e + 1), '='));
                if val == "true"@ {
                    Some(InstructionView::SetGlobalVariable(var, true))
                } else if val == "false"@ {
                    Some(InstructionView::SetGlobalVariable(var, false))
                } else {
                    None
                }
            }
        }
    } else {
        None
    }
}

/// The instructions of the statements between semicolons; empty statements
/// are skipped, and `None` means that a statement is malformed.
pub open spec fn parse_statements(pieces: Seq<Seq<char>>) -> Option<Seq<InstructionView>>
    decreases pieces.len(),
{
    if pieces.len() == 0 {
        Some(Seq::<InstructionView>::empty())
    } else {
        match parse_statements(pieces.drop_last()) {
            None => None,
            Some(prev) => {
                let t = trim(pieces.last());
                if t.len() == 0 {
                    Some(prev)
                } else {
                    match parse_statement(t) {
                        Some(i) => Some(prev.push(i)),
                        None => None,
                    }
                }
            },
        }
    }
}

/// The instructions of an articy instruction script, or `None` when the script is malformed.
pub open spec fn parse_instructions_spec(s: Seq<char>) -> Option<Seq<InstructionView>> {
    parse_statements(split_char(s, ';'))
}

/// The script `AddItem("name")`.
pub open spec fn add_item_call(name: Seq<char>) -> Seq<char> {
    "AddItem(\""@ + name + "\")"@
}

/// A script `AddItem("name")`, with a name free of semicolons, parentheses,
/// commas and quotes, adds the item of that display name, and is malformed
/// when no item has it.
proof fn lemma_add_item_call(n: Seq<char>)
    requires
        forall|j: int|
            0 <= j < n.len() ==> n[j] != ';' && n[j] != '(' && n[j] != ')' && n[j] != ',' && n[j] != '"',
    ensures
        parse_instructions_spec(add_item_call(n)) == match item_named(n) {
            Some(i) => Some(seq![InstructionView::AddItem(i)]),
            None => None::<Seq<InstructionView>>,
        },
{
    reveal_strlit("AddItem(\"");
    reveal_strlit("\")");
    reveal_strlit("AddItem");
    reveal_strlit("AddUnits");
    reveal_strlit("SubtractUnits");
    reveal_strlit("AddFood");
    reveal_strlit("SubtractFood");
    let s = add_item_call(n);
    let len = s.len() as int;
    assert(len == n.len() + 11);
    assert forall|j: int| 0 <= j < len implies s[j] != ';' by {
        if 9 <= j < 9 + n.len() {
            assert(s[j] == n[j - 9]);
        }
    }
    lemma_split_char_whole(s, ';');
    lemma_trim_unchanged(s);
    assert(seq![s].drop_last() =~= Seq::<Seq<char>>::empty());
    assert(s[7] == '(');
    assert forall|j: int| 0 <= j < 7 implies s[j] != '(' by {}
    lemma_first_index_at(s, '(', 7);
    assert forall|j: int| 0 <= j < len - 1 implies s[j] != ')' by {
        if 9 <= j < 9 + n.len() {
            assert(s[j] == n[j - 9]);
        }
    }
    lemma_first_index_at(s, ')', len - 1);
    let q = s.subrange(8, len - 1);
    assert(q =~= seq!['"'] + n + seq!['"']);
    assert forall|j: int| 0 <= j < q.len() implies q[j] != ',' by {
        if 1 <= j < 1 + n.len() {
            assert(q[j] == n[j - 1]);
        }
    }
    lemma_split_char_whole(q, ',');
    lemma_trim_unchanged(q);
    assert(seq![q].drop_last() =~= Seq::<Seq<char>>::empty());
    assert(q.subrange(1, q.len() - 1) =~= n);
    assert(parse_param(trim(q)) == Some(ParamView::Str(n)));
    assert(seq![q].last() == q);
    assert(parse_params(Seq::<Seq<char>>::empty()) == Some(Seq::<ParamView>::empty()));
    assert(Seq::<ParamView>::empty().push(ParamView::Str(n)) =~= seq![ParamView::Str(n)]);
    assert(parse_params(seq![q]) == Some(seq![ParamView::Str(n)]));
    assert(s.take(7) =~= "AddItem"@);
    assert(seq![s].last() == s);
    assert(parse_statements(Seq::<Seq<char>>::empty()) == Some(Seq::<InstructionView>::empty()));
    assert(first_index(s, '(') == 7);
    assert(first_index(s, ')') == len - 1);
    assert(split_char(s.subrange(8, len - 1), ',') == seq![q]);
    let name = s.take(7);
    assert(name != "AddUnits"@);
    assert(name != "SubtractUnits"@);
    assert(name[3] != "AddFood"@[3]);
    assert(name != "AddFood"@);
    assert(name != "SubtractFood"@);
    assert(name == "AddItem"@);
    let ps = seq![ParamView::Str(n)];
    assert(ps[0] is Str && ps[0]->Str_0 == n);
    assert(parse_statement(s) == build_instruction(name, ps));
    match item_named(n) {
        Some(i) => {
            assert(build_instruction(name, ps) == Some(InstructionView::AddItem(i)));
            assert(parse_statement(s) == Some(InstructionView::AddItem(i)));
            assert(Seq::<InstructionView>::empty().push(InstructionView::AddItem(i)) =~= seq![
                InstructionView::AddItem(i),
            ]);
        },
        None => {
            assert(parse_statement(s) is None);
        },
    }
}

/// Parsing `AddItem("name")` with an item's display name adds that very item.
pub proof fn law_add_item_parses(item: Item)
    ensures
        parse_instructions_spec(add_item_call(item_name(item))) == Some(seq![InstructionView::AddItem(item)]),
{
    reveal_strlit("Crackling Moss");
    reveal_strlit("Squirt Blop-Berries");
    reveal_strlit("Firemander Salts");
    reveal_strlit("Axe Shrooms");
    reveal_strlit("Bog Hard-Weeds");
    reveal_strlit("Celery Quartz");
    reveal_strlit("Frosty Web-Strands");
    let n = item_name(item);
    assert forall|j: int| 0 <= j < n.len() implies n[j] != ';' && n[j] != '(' && n[j] != ')' && n[j] != ','
        && n[j] != '"' by {}
    lemma_add_item_call(n);
    match item {
        Item::CracklingMoss => {},
        Item::SquirtBlopBerries => {
            assert(n[0] != "Crackling Moss"@[0]);
        },
        Item::FiremanderSalts => {
            assert(n[0] != "Crackling Moss"@[0]);
            assert(n[0] != "Squirt Blop-Berries"@[0]);
        },
        Item::AxeShrooms => {
            assert(n[0] != "Crackling Moss"@[0]);
            assert(n[0] != "Squirt Blop-Berries"@[0]);
            assert(n[0] != "Firemander Salts"@[0]);
        },
        Item::BogHardWeeds => {
            assert(n[0] != "Crackling Moss"@[0]);
            assert(n[0] != "Squirt Blop-Berries"@[0]);
            assert(n[0] != "Firemander Salts"@[0]);
            assert(n[0] != "Axe Shrooms"@[0]);
        },
        Item::CeleryQuartz => {
            assert(n[1] != "Crackling Moss"@[1]);
            assert(n[0] != "Squirt Blop-Berries"@[0]);
            assert(n[0] != "Firemander Salts"@[0]);
            assert(n[0] != "Axe Shrooms"@[0]);
            assert(n[0] != "Bog Hard-Weeds"@[0]);
        },
        Item::FrostyWebStrands => {
            assert(n[0] != "Crackling Moss"@[0]);
            assert(n[0] != "Squirt Blop-Berries"@[0]);
            assert(n[1] != "Firemander Salts"@[1]);
            assert(n[0] != "Axe Shrooms"@[0]);
            assert(n[0] != "Bog Hard-Weeds"@[0]);
            assert(n[0] != "Celery Quartz"@[0]);
        },
    }
    assert(item_named(n) == Some(item));
}

/// The variable and the value a condition `Game.variable == true|false` tests,
/// or `None` when the condition is malformed.
pub open spec fn parse_condition_spec(s: Seq<char>) -> Option<(Seq<char>, bool)> {
    if !starts_with(s, "Game."@) {
        None
    } else {
        let p = first_index(s, '.');
        if p < 0 {
            None
        } else {
            let c = s.skip(p + 1);
            let q = first_double_eq(c);
            if q < 0 {
                None
            } else {
                let var = trim(c.take(q));
                let val = trim(before_double_eq(c.skip(q + 2)));
                if val == "true"@ || val == "true;"@ {
                    Some((var, true))
                } else if val == "false"@ || val == "false;"@ {
                    Some((var, false))
                } else {
                    None
                }
            }
        }
    }
}

/// The unit kind named by `n`.
fn unit_kind_from_name(n: &Vec<char>) -> (r: Option<UnitKind>)
    ensures
        r == unit_kind_named(n@),
{
    if chars_eq_str(n, "Peasant") {
        Some(UnitKind::Peasant)
    } else if chars_eq_str(n, "Warrior") {
        Some(UnitKind::Warrior)
    } else if chars_eq_str(n, "Archer") {
        Some(UnitKind::Archer)
    } else if chars_eq_str(n, "Mage") {
        Some(UnitKind::Mage)
    } else if chars_eq_str(n, "Brute") {
        Some(UnitKind::Brute)
    } else {
        None
    }
}

/// The item whose display name is `n`.
fn item_from_name(n: &Vec<char>) -> (r: Option<Item>)
    ensures
        r == item_named(n@),
{
    if chars_eq_str(n, "Crackling Moss") {
        Some(Item::CracklingMoss)
    } else if chars_eq_str(n, "Squirt Blop-Berries") {
        Some(Item::SquirtBlopBerries)
    } else if chars_eq_str(n, "Firemander Salts") {
        Some(Item::FiremanderSalts)
    } else if chars_eq_str(n, "Axe Shrooms") {
        Some(Item::AxeShrooms)
    } else if chars_eq_str(n, "Bog Hard-Weeds") {
        Some(Item::BogHardWeeds)
    } else if chars_eq_str(n, "Celery Quartz") {
        Some(Item::CeleryQuartz)
    } else if chars_eq_str(n, "Frosty Web-Strands") {
        Some(Item::FrostyWebStrands)
    } else {
        None
    }
}

/// One trimmed parameter.
fn parse_param_chars(t: &Vec<char>) -> (r: Option<Param>)
    ensures
        match r {
            Some(p) => parse_param(t@) == Some(p.view_param()),
            None => parse_param(t@) is None,
        },
{
    let n = t.len();
    if n >= 1 && t[0] == '"' && t[n - 1] == '"' {
        if n >= 2 {
            Some(Param::Str(sub_chars(t, 1, n - 1)))
        } else {
            None
        }
    } else {
        match parse_i32_chars(t) {
            Some(v) => Some(Param::Int(v)),
            None => None,
        }
    }
}

/// The parameters between the parentheses.
fn parse_params_chars(inner: &Vec<char>) -> (r: Option<Vec<Param>>)
    ensures
        match r {
            Some(ps) => parse_params(split_char(inner@, ',')) == Some(
                ps@.map_values(|p: Param| p.view_param()),
            ),
            None => parse_params(split_char(inner@, ',')) is None,
        },
{
    let pieces = split_chars(inner, ',');
    let ghost sp = split_char(inner@, ',');
    let mut ps: Vec<Param> = Vec::new();
    let mut i: usize = 0;
    while i < pieces.len()
        invariant
            i <= pieces.len(),
            pieces.len() == sp.len(),
            sp == split_char(inner@, ','),
            forall|j: int| 0 <= j < pieces.len() ==> #[trigger] pieces@[j]@ == sp[j],
            parse_params(sp.take(i as int)) == Some(ps@.map_values(|p: Param| p.view_param())),
        decreases pieces.len() - i,
    {
        assert(sp.take(i + 1).drop_last() =~= sp.take(i as int));
        assert(sp.take(i + 1).last() == pieces@[i as int]@);
        let t = trim_chars(&pieces[i]);
        match parse_param_chars(&t) {
            Some(p) => {
                ps.push(p);
                assert(ps@.map_values(|p: Param| p.view_param()) =~= ps@.drop_last().map_values(
                    |p: Param| p.view_param(),
                ).push(p.view_param()));
            },
            None => {
                assert(parse_params(sp.take(i + 1)) is None);
                proof {
                    lemma_parse_params_none_extends(sp, i as int + 1);
                }
                return None;
            },
        }
        i = i + 1;
    }
    assert(sp.take(i as int) =~= sp);
    Some(ps)
}

/// Once a parameter is malformed, the whole list is.
proof fn lemma_parse_params_none_extends(pieces: Seq<Seq<char>>, k: int)
    requires
        0 <= k <= pieces.len(),
        parse_params(pieces.take(k)) is None,
    ensures
        parse_params(pieces) is None,
    decreases pieces.len() - k,
{
    if k < pieces.len() {
        assert(pieces.take(k + 1).drop_last() =~= pieces.take(k));
        lemma_parse_params_none_extends(pieces, k + 1);
    } else {
        assert(pieces.take(k) =~= pieces);
    }
}

/// Once a statement is malformed, the whole script is.
proof fn lemma_parse_statements_none_extends(pieces: Seq<Seq<char>>, k: int)
    requires
        0 <= k <= pieces.len(),
        parse_statements(pieces.take(k)) is None,
    ensures
        parse_statements(pieces) is None,
    decreases pieces.len() - k,
{
    if k < pieces.len() {
        assert(pieces.take(k + 1).drop_last() =~= pieces.take(k));
        lemma_parse_statements_none_extends(pieces, k + 1);
    } else {
        assert(pieces.take(k) =~= pieces);
    }
}

/// The instruction for a call of `name` with parameters `ps`.
fn build_instruction_exec(name: &Vec<char>, ps: &Vec<Param>) -> (r: Option<ArticyDialogueInstruction>)
    ensures
        match r {
            Some(i) => build_instruction(name@, ps@.map_values(|p: Param| p.view_param())) == Some(
                i@,
            ),
            None => build_instruction(name@, ps@.map_values(|p: Param| p.view_param())) is None,
        },
{
    let ghost pv = ps@.map_values(|p: Param| p.view_param());
    let add_units = chars_eq_str(name, "AddUnits");
    let sub_units = chars_eq_str(name, "SubtractUnits");
    if add_units || sub_units {
        if ps.len() >= 2 {
            match (&ps[0], &ps[1]) {
                (Param::Str(kind), Param::Int(amount)) => {
                    assert(pv[0] == ParamView::Str(kind@));
                    assert(pv[1] == ParamView::Int(*amount));
                    match unit_kind_from_name(kind) {
                        Some(k) => {
                            if add_units {
                                Some(ArticyDialogueInstruction::AddUnits(k, *amount as usize))
                            } else {
                                Some(ArticyDialogueInstruction::SubtractUnits(k, *amount as usize))
                            }
                        },
                        None => None,
                    }
                },
                _ => {
                    assert(!(pv[0] is Str && pv[1] is Int));
                    None
                },
            }
        } else {
            None
        }
    } else {
        let add_food = chars_eq_str(name, "AddFood");
        let sub_food = chars_eq_str(name, "SubtractFood");
        if add_food || sub_food {
            if ps.len() >= 1 {
                match &ps[0] {
                    Param::Int(amount) => {
                        assert(pv[0] == ParamView::Int(*amount));
                        if add_food {
                            Some(ArticyDialogueInstruction::AddFood(*amount as usize))
                        } else {
                            Some(ArticyDialogueInstruction::SubtractFood(*amount as usize))
                        }
                    },
                    _ => {
                        assert(!(pv[0] is Int));
                        None
                    },
                }
            } else {
                None
            }
        } else if chars_eq_str(name, "AddItem") {
            if ps.len() >= 1 {
                match &ps[0] {
                    Param::Str(item_name) => {
                        assert(pv[0] == ParamView::Str(item_name@));
                        match item_from_name(item_name) {
                            Some(item) => Some(ArticyDialogueInstruction::AddItem(item)),
                            None => None,
                        }
                    },
                    _ => {
                        assert(!(pv[0] is Str));
                        None
                    },
                }
            } else {
                None
            }
        } else {
            None
        }
    }
}

/// One trimmed, non-empty statement.
fn parse_statement_chars(st: &Vec<char>) -> (r: Option<ArticyDialogueInstruction>)
    ensures
        match r {
            Some(i) => parse_statement(st@) == Some(i@),
            None => parse_statement(st@) is None,
        },
{
    let n = st.len();
    match find_char(st, '(') {
        Some(op) => {
            match find_char(st, ')') {
                Some(cp) => {
                    if cp < op + 1 {
                        return None;
                    }
                    let name = sub_chars(st, 0, op);
                    assert(name@ =~= st@.take(op as int));
                    let inner = sub_chars(st, op + 1, cp);
                    match parse_params_chars(&inner) {
                        Some(ps) => build_instruction_exec(&name, &ps),
                        None => None,
                    }
                },
                None => None,
            }
        },
        None => {
            if !starts_with_str(st, "Game.") {
                return None;
            }
            match find_char(st, '.') {
                Some(p) => {
                    let asg = sub_chars(st, p + 1, n);
                    assert(asg@ =~= st@.skip(p + 1));
                    match find_char(&asg, '=') {
                        Some(e) => {
                            let var_raw = sub_chars(&asg, 0, e);
                            assert(var_raw@ =~= asg@.take(e as int));
                            let var = trim_chars(&var_raw);
                            let rest = sub_chars(&asg, e + 1, asg.len());
                            assert(rest@ =~= asg@.skip(e + 1));
                            let val_raw = match find_char(&rest, '=') {
                                Some(f) => {
                                    let v = sub_chars(&rest, 0, f);
                                    assert(v@ =~= rest@.take(f as int));
                                    v
                                },
                                None => rest,
                            };
                            let val = trim_chars(&val_raw);
                            if chars_eq_str(&val, "true") {
                                Some(
                                    ArticyDialogueInstruction::SetGlobalVariable(
                                        string_from_chars(var),
                                        true,
                                    ),
                                )
                            } else if chars_eq_str(&val, "false") {
                                Some(
                                    ArticyDialogueInstruction::SetGlobalVariable(
                                        string_from_chars(var),
                                        false,
                                    ),
                                )
                            } else {
                                None
                            }
                        },
                        None => None,
                    }
                },
                None => None,
            }
        },
    }
}

/// The instructions of an articy instruction script, or `None` when a
/// statement is malformed (where `parse_instructions` stops the game).
pub fn parse_instructions_checked(s: &str) -> (r: Option<Vec<ArticyDialogueInstruction>>)
    ensures
        match r {
            Some(v) => parse_instructions_spec(s@) == Some(
                v@.map_values(|i: ArticyDialogueInstruction| i@),
            ),
            None => parse_instructions_spec(s@) is None,
        },
{
    let cs = chars_of(s);
    let pieces = split_chars(&cs, ';');
    let ghost sp = split_char(s@, ';');
    let mut out: Vec<ArticyDialogueInstruction> = Vec::new();
    let mut i: usize = 0;
    while i < pieces.len()
        invariant
            i <= pieces.len(),
            pieces.len() == sp.len(),
            sp == split_char(s@, ';'),
            forall|j: int| 0 <= j < pieces.len() ==> #[trigger] pieces@[j]@ == sp[j],
            parse_statements(sp.take(i as int)) == Some(
                out@.map_values(|x: ArticyDialogueInstruction| x@),
            ),
        decreases pieces.len() - i,
    {
        assert(sp.take(i + 1).drop_last() =~= sp.take(i as int));
        assert(sp.take(i + 1).last() == pieces@[i as int]@);
        let t = trim_chars(&pieces[i]);
        if t.len() > 0 {
            match parse_statement_chars(&t) {
                Some(ins) => {
                    let ghost iv = ins@;
                    out.push(ins);
                    assert(out@.map_values(|x: ArticyDialogueInstruction| x@) =~= out@.drop_last().map_values(
                        |x: ArticyDialogueInstruction| x@,
                    ).push(iv));
                },
                None => {
                    assert(parse_statements(sp.take(i + 1)) is None);
                    proof {
                        lemma_parse_statements_none_extends(sp, i as int + 1);
                    }
                    return None;
                },
            }
        }
        i = i + 1;
    }
    assert(sp.take(i as int) =~= sp);
    Some(out)
}

/// The instructions of an articy instruction script such as
/// `AddUnits("Peasant", 3); Game.Met = true;`. The script must be well formed.
pub fn parse_instructions(s: &str) -> (r: Vec<ArticyDialogueInstruction>)
    requires
        parse_instructions_spec(s@) is Some,
    ensures
        parse_instructions_spec(s@) == Some(r@.map_values(|i: ArticyDialogueInstruction| i@)),
{
    match parse_instructions_checked(s) {
        Some(v) => v,
        None => Vec::new(),
    }
}

/// The variable and value a condition `Game.variable == true|false` tests, or
/// `None` when it is malformed (where `parse_condition` stops the game).
pub fn parse_condition_checked(s: &str) -> (r: Option<(String, bool)>)
    ensures
        match r {
            Some((v, b)) => parse_condition_spec(s@) == Some((v@, b)),
            None => parse_condition_spec(s@) is None,
        },
{
    let cs = chars_of(s);
    if !starts_with_str(&cs, "Game.") {
        return None;
    }
    let p = match find_char(&cs, '.') {
        Some(p) => p,
        None => {
            return None;
        },
    };
    let n = cs.len();
    let c = sub_chars(&cs, p + 1, n);
    assert(c@ =~= s@.skip(p + 1));
    let q = match find_double_eq(&c) {
        Some(q) => q,
        None => {
            return None;
        },
    };
    let var_raw = sub_chars(&c, 0, q);
    assert(var_raw@ =~= c@.take(q as int));
    let var = trim_chars(&var_raw);
    let rest = sub_chars(&c, q + 2, c.len());
    assert(rest@ =~= c@.skip(q + 2));
    let val_raw = match find_double_eq(&rest) {
        Some(f) => {
            let v = sub_chars(&rest, 0, f);
            assert(v@ =~= rest@.take(f as int));
            v
        },
        None => rest,
    };
    let val = trim_chars(&val_raw);
    if chars_eq_str(&val, "true") || chars_eq_str(&val, "true;") {
        Some((string_from_chars(var), true))
    } else if chars_eq_str(&val, "false") || chars_eq_str(&val, "false;") {
        Some((string_from_chars(var), false))
    } else {
        None
    }
}

/// The variable and value a condition such as `Game.Met == true` tests. The
/// condition must be well formed.
pub fn parse_condition(s: &str) -> (r: (String, bool))
    requires
        parse_condition_spec(s@) is Some,
    ensures
        parse_condition_spec(s@) == Some((r.0@, r.1)),
{
    match parse_condition_checked(s) {
        Some(r) => r,
        None => (String::new(), false),
    }
}


/// The identifier of a node in an articy dialogue graph.
#[derive(Debug)]
pub struct ArticyId(String);

impl View for ArticyId {
    type V = Seq<char>;

    closed spec fn view(&self) -> Seq<char> {
        self.0@
    }
}

impl From<String> for ArticyId {
    fn from(value: String) -> (r: ArticyId) {
        ArticyId(value)
    }
}

impl vstd::std_specs::convert::FromSpecImpl<String> for ArticyId {
    open spec fn obeys_from_spec() -> bool {
        true
    }

    closed spec fn from_spec(v: String) -> ArticyId {
        ArticyId(v)
    }
}

impl ArticyId {
    /// The identifier written as `value`.
    pub fn new(value: String) -> (r: ArticyId)
        ensures
            r@ == value@,
    {
        ArticyId(value)
    }

    /// A copy of the identifier.
    pub fn duplicate(&self) -> (r: ArticyId)
        ensures
            r@ == self@,
    {
        ArticyId(self.0.clone())
    }

    /// Whether the two identifiers are the same.
    pub fn same(&self, other: &ArticyId) -> (r: bool)
        ensures
            r == (self@ == other@),
    {
        self.0 == other.0
    }

    /// The text of the identifier.
    pub fn as_str(&self) -> (r: &str)
        ensures
            r@ == self@,
    {
        self.0.as_str()
    }
}

/// The identifiers as character sequences.
pub open spec fn ids_view(ids: Seq<ArticyId>) -> Seq<Seq<char>> {
    ids.map_values(|i: ArticyId| i@)
}

/// A copy of a list of identifiers.
pub fn duplicate_ids(ids: &Vec<ArticyId>) -> (r: Vec<ArticyId>)
    ensures
        ids_view(r@) == ids_view(ids@),
{
    let mut r: Vec<ArticyId> = Vec::new();
    let mut i: usize = 0;
    while i < ids.len()
        invariant
            i <= ids@.len(),
            ids_view(r@) =~= ids_view(ids@.take(i as int)),
        decreases ids.len() - i,
    {
        let d = ids[i].duplicate();
        let ghost before = r@;
        r.push(d);
        assert(ids_view(r@) =~= ids_view(before).push(ids@[i as int]@));
        assert(ids@.take(i + 1) =~= ids@.take(i as int).push(ids@[i as int]));
        i = i + 1;
    }
    assert(ids@.take(i as int) =~= ids@);
    r
}

/// What a dialogue node does when it is reached.
#[derive(Debug)]
pub enum ArticyDialogueKind {
    /// A line of text said by a speaker.
    Message { speaker: Speaker, text: String },
    /// Instructions that change the game, then on to the children.
    Instruction { instructions: Vec<ArticyDialogueInstruction> },
    /// On to the first child when the variable equals `equals`, else to the second.
    Condition { variable: String, equals: bool },
    /// Straight on to the children.
    Noop,
}

/// A node kind as a mathematical value.
pub enum KindView {
    Message { speaker: Speaker, text: Seq<char> },
    Instruction { instructions: Seq<InstructionView> },
    Condition { variable: Seq<char>, equals: bool },
    Noop,
}

/// The instructions as mathematical values.
pub open spec fn instructions_view(v: Seq<ArticyDialogueInstruction>) -> Seq<InstructionView> {
    v.map_values(|i: ArticyDialogueInstruction| i@)
}

impl View for ArticyDialogueKind {
    type V = KindView;

    open spec fn view(&self) -> KindView {
        match self {
            ArticyDialogueKind::Message { speaker, text } => KindView::Message {
                speaker: *speaker,
                text: text@,
            },
            ArticyDialogueKind::Instruction { instructions } => KindView::Instruction {
                instructions: instructions_view(instructions@),
            },
            ArticyDialogueKind::Condition { variable, equals } => KindView::Condition {
                variable: variable@,
                equals: *equals,
            },
            ArticyDialogueKind::Noop => KindView::Noop,
        }
    }
}

/// A copy of a list of instructions.
pub fn duplicate_instructions(v: &Vec<ArticyDialogueInstruction>) -> (r: Vec<ArticyDialogueInstruction>)
    ensures
        instructions_view(r@) == instructions_view(v@),
{
    let mut r: Vec<ArticyDialogueInstruction> = Vec::new();
    let mut i: usize = 0;
    while i < v.len()
        invariant
            i <= v@.len(),
            instructions_view(r@) =~= instructions_view(v@.take(i as int)),
        decreases v.len() - i,
    {
        let d = v[i].duplicate();
        let ghost before = r@;
        r.push(d);
        assert(instructions_view(r@) =~= instructions_view(before).push(v@[i as int]@));
        assert(v@.take(i + 1) =~= v@.take(i as int).push(v@[i as int]));
        i = i + 1;
    }
    assert(v@.take(i as int) =~= v@);
    r
}

impl ArticyDialogueKind {
    /// A copy of the kind.
    pub fn duplicate(&self) -> (r: ArticyDialogueKind)
        ensures
            r@ == self@,
    {
        match self {
            ArticyDialogueKind::Message { speaker, text } => ArticyDialogueKind::Message {
                speaker: *speaker,
                text: text.clone(),
            },
            ArticyDialogueKind::Instruction { instructions } => ArticyDialogueKind::Instruction {
                instructions: duplicate_instructions(instructions),
            },
            ArticyDialogueKind::Condition { variable, equals } => ArticyDialogueKind::Condition {
                variable: variable.clone(),
                equals: *equals,
            },
            ArticyDialogueKind::Noop => ArticyDialogueKind::Noop,
        }
    }
}

/// A node of a dialogue graph: what it does and where the dialogue goes next.
#[derive(Debug)]
pub struct ArticyDialogueNode {
    pub kind: ArticyDialogueKind,
    pub children: Vec<ArticyId>,
}

/// A node as a mathematical value.
pub struct NodeView {
    pub kind: KindView,
    pub children: Seq<Seq<char>>,
}

impl View for ArticyDialogueNode {
    type V = NodeView;

    open spec fn view(&self) -> NodeView {
        NodeView { kind: self.kind@, children: ids_view(self.children@) }
    }
}

impl ArticyDialogueNode {
    /// A copy of the node.
    pub fn duplicate(&self) -> (r: ArticyDialogueNode)
        ensures
            r@ == self@,
    {
        ArticyDialogueNode { kind: self.kind.duplicate(), children: duplicate_ids(&self.children) }
    }
}

/// A dialogue graph: its nodes by identifier, and the nodes it starts at.
#[derive(Debug)]
pub struct ArticyDialogue {
    pub nodes: Vec<(ArticyId, ArticyDialogueNode)>,
    pub children: Vec<ArticyId>,
}

/// A dialogue graph as a mathematical value.
pub struct DialogueGraphView {
    pub nodes: Seq<(Seq<char>, NodeView)>,
    pub children: Seq<Seq<char>>,
}

/// The nodes as mathematical values.
pub open spec fn nodes_view(nodes: Seq<(ArticyId, ArticyDialogueNode)>) -> Seq<(Seq<char>, NodeView)> {
    nodes.map_values(|e: (ArticyId, ArticyDialogueNode)| (e.0@, e.1@))
}

impl View for ArticyDialogue {
    type V = DialogueGraphView;

    open spec fn view(&self) -> DialogueGraphView {
        DialogueGraphView { nodes: nodes_view(self.nodes@), children: ids_view(self.children@) }
    }
}

impl ArticyDialogue {
    /// The position of the node `id` among the nodes, if it is there.
    pub fn find_node(&self, id: &ArticyId) -> (r: Option<usize>)
        ensures
            match r {
                Some(p) => crate::vars::key_position(self@.nodes, id@) == p && p < self.nodes@.len(),
                None => crate::vars::key_position(self@.nodes, id@) == -1,
            },
    {
        let ghost nv = self@.nodes;
        let mut i: usize = 0;
        while i < self.nodes.len()
            invariant
                i <= self.nodes@.len(),
                nv == nodes_view(self.nodes@),
                nv.len() == self.nodes@.len(),
                forall|j: int| 0 <= j < i ==> nv[j].0 != id@,
            decreases self.nodes.len() - i,
        {
            assert(nv[i as int].0 == self.nodes@[i as int].0@);
            if self.nodes[i].0.same(id) {
                proof {
                    crate::vars::lemma_key_position_at(nv, id@, i as int);
                }
                return Some(i);
            }
            i = i + 1;
        }
        proof {
            crate::vars::lemma_key_absent(nv, id@);
        }
        None
    }

    /// A copy of the dialogue graph.
    pub fn duplicate(&self) -> (r: ArticyDialogue)
        ensures
            r@ == self@,
    {
        let mut nodes: Vec<(ArticyId, ArticyDialogueNode)> = Vec::new();
        let mut i: usize = 0;
        while i < self.nodes.len()
            invariant
                i <= self.nodes@.len(),
                nodes_view(nodes@) =~= nodes_view(self.nodes@.take(i as int)),
            decreases self.nodes.len() - i,
        {
            let e = &self.nodes[i];
            let d = (e.0.duplicate(), e.1.duplicate());
            let ghost before = nodes@;
            nodes.push(d);
            assert(nodes_view(nodes@) =~= nodes_view(before).push((e.0@, e.1@)));
            assert(self.nodes@.take(i + 1) =~= self.nodes@.take(i as int).push(self.nodes@[i as int]));
            i = i + 1;
        }
        assert(self.nodes@.take(i as int) =~= self.nodes@);
        ArticyDialogue { nodes, children: duplicate_ids(&self.children) }
    }
}

/// The dialogues and the starting values of the global variables of a
/// project, each dialogue under its technical name.
#[derive(Debug)]
pub struct Articy {
    dialogues: Vec<(String, ArticyDialogue)>,
    global_variables: GlobalVariables,
}

/// A project as a mathematical value.
pub struct ArticyView {
    pub dialogues: Seq<(Seq<char>, DialogueGraphView)>,
    pub global_variables: Seq<(Seq<char>, bool)>,
}

impl ArticyView {
    /// Whether a dialogue is named `name`.
    pub open spec fn has_dialogue(self, name: Seq<char>) -> bool {
        key_lookup(self.dialogues, name) is Some
    }

    /// The dialogue named `name`.
    pub open spec fn dialogue(self, name: Seq<char>) -> DialogueGraphView {
        key_lookup(self.dialogues, name).unwrap()
    }
}

/// The dialogues after `d` is stored under `name`: an existing dialogue of
/// that name is replaced in place, or the new one goes at the end.
pub open spec fn dialogues_insert(
    entries: Seq<(Seq<char>, DialogueGraphView)>,
    name: Seq<char>,
    d: DialogueGraphView,
) -> Seq<(Seq<char>, DialogueGraphView)> {
    let p = key_position(entries, name);
    if p >= 0 {
        entries.update(p, (name, d))
    } else {
        entries.push((name, d))
    }
}

impl View for Articy {
    type V = ArticyView;

    closed spec fn view(&self) -> ArticyView {
        ArticyView {
            dialogues: self.dialogues@.map_values(|e: (String, ArticyDialogue)| (e.0@, e.1@)),
            global_variables: self.global_variables@,
        }
    }
}

impl Articy {
    /// A project with no dialogue and no variable.
    pub fn new() -> (r: Articy)
        ensures
            r@.dialogues.len() == 0,
            r@.global_variables.len() == 0,
    {
        let r = Articy { dialogues: Vec::new(), global_variables: GlobalVariables::new() };
        assert(r@.dialogues =~= Seq::<(Seq<char>, DialogueGraphView)>::empty());
        r
    }

    /// The starting values of the global variables.
    pub fn global_variables(&self) -> (r: &GlobalVariables)
        ensures
            r@ == self@.global_variables,
    {
        &self.global_variables
    }

    /// Replaces the starting values of the global variables.
    pub fn set_global_variables(&mut self, g: GlobalVariables)
        ensures
            final(self)@.global_variables == g@,
            final(self)@.dialogues == old(self)@.dialogues,
    {
        self.global_variables = g;
    }

    /// The position of the dialogue `name`, if there is one.
    fn position(&self, name: &String) -> (r: Option<usize>)
        ensures
            match r {
                Some(p) => key_position(self@.dialogues, name@) == p && p < self@.dialogues.len(),
                None => key_position(self@.dialogues, name@) == -1,
            },
    {
        let ghost dv = self@.dialogues;
        let mut i: usize = 0;
        while i < self.dialogues.len()
            invariant
                i <= self.dialogues@.len(),
                dv == self@.dialogues,
                dv.len() == self.dialogues@.len(),
                forall|j: int| 0 <= j < i ==> dv[j].0 != name@,
            decreases self.dialogues.len() - i,
        {
            assert(dv[i as int] == (self.dialogues@[i as int].0@, self.dialogues@[i as int].1@));
            if self.dialogues[i].0 == *name {
                proof {
                    lemma_key_position_at(dv, name@, i as int);
                }
                return Some(i);
            }
            i = i + 1;
        }
        proof {
            lemma_key_absent(dv, name@);
        }
        None
    }

    /// Stores the dialogue `d` under `name`, replacing one of the same name.
    pub fn insert_dialogue(&mut self, name: String, d: ArticyDialogue)
        ensures
            final(self)@.dialogues == dialogues_insert(old(self)@.dialogues, name@, d@),
            final(self)@.global_variables == old(self)@.global_variables,
    {
        let ghost nv = name@;
        let ghost dv = d@;
        match self.position(&name) {
            Some(p) => {
                self.dialogues.set(p, (name, d));
                assert(self@.dialogues =~= old(self)@.dialogues.update(p as int, (nv, dv)));
            },
            None => {
                self.dialogues.push((name, d));
                assert(self@.dialogues =~= old(self)@.dialogues.push((nv, dv)));
            },
        }
    }

    /// The dialogue named `name`, if there is one.
    pub fn dialogue(&self, name: &str) -> (r: Option<&ArticyDialogue>)
        ensures
            match r {
                Some(d) => self@.has_dialogue(name@) && d@ == self@.dialogue(name@),
                None => !self@.has_dialogue(name@),
            },
    {
        let owned = name.to_owned();
        proof {
            lemma_key_position(self@.dialogues, name@);
        }
        match self.position(&owned) {
            Some(p) => {
                assert(self@.dialogues[p as int] == (self.dialogues@[p as int].0@, self.dialogues@[p as int].1@));
                Some(&self.dialogues[p].1)
            },
            None => None,
        }
    }

    /// A copy of the dialogue named `name`, which must exist.
    pub fn expect_dialogue(&self, name: &str) -> (r: ArticyDialogue)
        requires
            self@.has_dialogue(name@),
        ensures
            r@ == self@.dialogue(name@),
    {
        match self.dialogue(name) {
            Some(d) => d.duplicate(),
            None => {
                proof {
                    assert(false);
                }
                ArticyDialogue { nodes: Vec::new(), children: Vec::new() }
            },
        }
    }

    /// The names of the dialogues, in the order they were first stored.
    pub fn dialogue_names(&self) -> (r: Vec<String>)
        ensures
            r@.map_values(|s: String| s@) == self@.dialogues.map_values(
                |e: (Seq<char>, DialogueGraphView)| e.0,
            ),
    {
        let mut r: Vec<String> = Vec::new();
        let mut i: usize = 0;
        while i < self.dialogues.len()
            invariant
                i <= self.dialogues@.len(),
                r@.map_values(|s: String| s@) =~= self@.dialogues.take(i as int).map_values(
                    |e: (Seq<char>, DialogueGraphView)| e.0,
                ),
            decreases self.dialogues.len() - i,
        {
            let ghost before = r@;
            let n = self.dialogues[i].0.clone();
            r.push(n);
            assert(self@.dialogues[i as int] == (self.dialogues@[i as int].0@, self.dialogues@[i as int].1@));
            assert(r@.map_values(|s: String| s@) =~= before.map_values(|s: String| s@).push(n@));
            assert(self@.dialogues.take(i + 1) =~= self@.dialogues.take(i as int).push(
                self@.dialogues[i as int],
            ));
            i = i + 1;
        }
        assert(self@.dialogues.take(i as int) =~= self@.dialogues);
        r
    }
}

} // verus!
