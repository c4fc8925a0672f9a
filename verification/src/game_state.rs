use vstd::prelude::*;

use rand::Rng;

use crate::app_state::AppState;
use crate::articy::{Articy, ArticyDialogueInstruction, InstructionView};
use crate::dialogue::Script;
use crate::battle::{war_chef_banner, Banner, BattleConfig, BattleReport};
use crate::items::{
    all_items, copy_items, item_at, item_index, item_modifiers, item_name, BattleModifier,
    BattleModifiers, Inventory, Item,
};
use crate::quest::{enemy_modifier_on, enemy_units, item_dialogue_name, preplanning_name, quest_next, Quest};
use crate::units::{all_unit_kinds, kind_at, unit_index, unit_name_plural, with_count, UnitComposition, UnitKind};
use crate::text::{append_chars, chars_of, decimal, decimal_chars, string_from_chars};
use crate::vars::{var_insert, GlobalVariables};

verus! {

/// What the scouts have learned: whether the enemy's units of each kind can
/// be seen.
#[derive(Clone, Copy, Debug)]
pub struct Intel {
    pub can_see: [bool; 5],
}

impl Intel {
    /// Whether the enemy's units of kind `k` can be seen.
    pub open spec fn sees(self, k: UnitKind) -> bool {
        self.can_see@[unit_index(k) as int]
    }

    /// Nothing learned.
    pub fn new() -> (r: Intel)
        ensures
            forall|k: UnitKind| !r.sees(k),
    {
        Intel { can_see: [false; 5] }
    }
}

impl Default for Intel {
    fn default() -> (r: Intel)
        ensures
            forall|k: UnitKind| !r.sees(k),
    {
        Intel::new()
    }
}

/// The state of a campaign in progress, with the state it was in at the last
/// checkpoint (which holds the one before, and so on).
#[derive(Debug)]
pub struct GameState {
    pub food: usize,
    pub available_army: UnitComposition,
    pub fed_army: UnitComposition,
    pub sick_army: UnitComposition,
    pub quest: Quest,
    pub intel: Intel,
    pub global_variables: GlobalVariables,
    pub inventory: Inventory,
    pub used_items: Vec<Item>,
    pub consumed_items: Vec<Item>,
    pub loot: Loot,
    pub checkpoint: Option<Box<GameState>>,
}

/// A campaign state as a mathematical value.
pub struct GameStateView {
    pub food: usize,
    pub available_army: UnitComposition,
    pub fed_army: UnitComposition,
    pub sick_army: UnitComposition,
    pub quest: Quest,
    pub intel: Intel,
    pub global_variables: Seq<(Seq<char>, bool)>,
    pub inventory: Seq<Item>,
    pub used_items: Seq<Item>,
    pub consumed_items: Seq<Item>,
    pub loot: Loot,
    pub checkpoint: Option<Box<GameStateView>>,
}

/// A campaign state as a mathematical value.
pub open spec fn state_view(g: GameState) -> GameStateView
    decreases g,
{
    GameStateView {
        food: g.food,
        available_army: g.available_army,
        fed_army: g.fed_army,
        sick_army: g.sick_army,
        quest: g.quest,
        intel: g.intel,
        global_variables: g.global_variables@,
        inventory: g.inventory@,
        used_items: g.used_items@,
        consumed_items: g.consumed_items@,
        loot: g.loot,
        checkpoint: match g.checkpoint {
            Some(c) => Some(Box::new(state_view(*c))),
            None => None,
        },
    }
}

/// A saved state as a mathematical value.
pub open spec fn saved_view(o: Option<Box<GameState>>) -> Option<Box<GameStateView>> {
    match o {
        Some(c) => Some(Box::new(state_view(*c))),
        None => None,
    }
}

impl View for GameState {
    type V = GameStateView;

    open spec fn view(&self) -> GameStateView {
        state_view(*self)
    }
}

/// The state after a checkpoint: the same, with itself saved as the
/// checkpoint.
pub open spec fn checkpointed(v: GameStateView) -> GameStateView {
    GameStateView { checkpoint: Some(Box::new(v)), ..v }
}

/// The state after loading the checkpoint: the saved state, or the same state
/// when nothing was saved.
pub open spec fn loaded(v: GameStateView) -> GameStateView {
    match v.checkpoint {
        Some(c) => *c,
        None => v,
    }
}

/// Whether there is a checkpoint before the last one.
pub open spec fn rewindable(v: GameStateView) -> bool {
    v.checkpoint matches Some(c) && c.checkpoint is Some
}

/// The state after rewinding: the checkpoint before the last one. With only
/// one checkpoint, that checkpoint is dropped and nothing else changes; with
/// none, nothing changes.
pub open spec fn rewound(v: GameStateView) -> GameStateView {
    match v.checkpoint {
        Some(c) => match c.checkpoint {
            Some(c2) => *c2,
            None => GameStateView { checkpoint: None, ..v },
        },
        None => v,
    }
}

/// The saved states, the latest first.
pub open spec fn checkpoint_chain(o: Option<Box<GameStateView>>) -> Seq<GameStateView>
    decreases o,
{
    match o {
        Some(c) => seq![*c] + checkpoint_chain(c.checkpoint),
        None => Seq::empty(),
    }
}

/// Loading the checkpoint right after taking it gives back the state as it
/// was.
pub proof fn law_load_after_checkpoint(v: GameStateView)
    ensures
        loaded(checkpointed(v)) == v,
{
}

/// After two checkpoints a rewind is possible, and it goes back to the state
/// as it was before both.
pub proof fn law_rewind_after_two_checkpoints(v: GameStateView)
    ensures
        rewindable(checkpointed(checkpointed(v))),
        rewound(checkpointed(checkpointed(v))) == v,
{
}

/// A checkpoint adds the state as it was to the front of the saved states.
pub proof fn law_checkpoint_chain(v: GameStateView)
    ensures
        checkpoint_chain(checkpointed(v).checkpoint) == seq![v] + checkpoint_chain(v.checkpoint),
{
}

/// The position of a kind of unit in the order peasants, warriors, archers,
/// mages, brutes.
pub fn unit_kind_index(k: UnitKind) -> (r: usize)
    ensures
        r == unit_index(k),
        r < 5,
{
    match k {
        UnitKind::Peasant => 0,
        UnitKind::Warrior => 1,
        UnitKind::Archer => 2,
        UnitKind::Mage => 3,
        UnitKind::Brute => 4,
    }
}

/// The summary lines for the first `n` kinds of unit: the plural name of each
/// kind won or lost, with the number.
pub open spec fn unit_entries(l: Loot, n: nat) -> Seq<(Seq<char>, int)>
    decreases n,
{
    if n == 0 {
        Seq::empty()
    } else {
        let k = kind_at(n - 1);
        unit_entries(l, (n - 1) as nat) + if l.units_of(k) != 0 {
            seq![(unit_name_plural(k), l.units_of(k))]
        } else {
            Seq::empty()
        }
    }
}

/// The summary lines for the first `n` items: the name of each item won or
/// lost, with the number.
pub open spec fn item_entries(l: Loot, n: nat) -> Seq<(Seq<char>, int)>
    decreases n,
{
    if n == 0 {
        Seq::empty()
    } else {
        let i = item_at(n - 1);
        item_entries(l, (n - 1) as nat) + if l.items_of(i) != 0 {
            seq![(item_name(i), l.items_of(i))]
        } else {
            Seq::empty()
        }
    }
}

/// The lines of the loot summary: the food, then each kind of unit, then each
/// item, leaving out what is zero.
pub open spec fn loot_entries(l: Loot) -> Seq<(Seq<char>, int)> {
    (if l.food_of() != 0 {
        seq![("Food"@, l.food_of())]
    } else {
        Seq::empty()
    }) + unit_entries(l, 5) + item_entries(l, 7)
}

/// How an amount won or lost reads: a plus sign and the amount when won, a
/// minus sign and the amount when lost.
pub open spec fn amount_text(v: int) -> Seq<char> {
    if v > 0 {
        seq!['+'] + decimal(v as nat)
    } else {
        seq!['-'] + decimal((-v) as nat)
    }
}

/// The texts of the summary lines for `es`: per line its name and a colon,
/// then the amount and a line break.
pub open spec fn entry_sections(es: Seq<(Seq<char>, int)>) -> Seq<Seq<char>>
    decreases es.len(),
{
    if es.len() == 0 {
        Seq::empty()
    } else {
        entry_sections(es.drop_last()) + seq![es.last().0 + ": "@, amount_text(es.last().1).push('\n')]
    }
}

/// The texts of the loot summary: nothing when nothing was won or lost,
/// otherwise a heading and the sections of each line (see `loot_entries`).
pub open spec fn loot_summary(l: Loot) -> Seq<Seq<char>> {
    if loot_entries(l).len() == 0 {
        Seq::empty()
    } else {
        seq!["Loot Get\n"@] + entry_sections(loot_entries(l))
    }
}

/// What outlives a campaign: whether the rewind screen still explains itself,
/// and which tutorials are still to be shown.
#[derive(Clone, Copy, Debug)]
pub struct PersistentGameState {
    pub show_rewind_screen_dialogue: bool,
    pub show_tutorial: [bool; 4],
}

impl PersistentGameState {
    /// Everything still to be shown.
    pub fn new() -> (r: PersistentGameState)
        ensures
            r.show_rewind_screen_dialogue,
            forall|i: int| 0 <= i < 4 ==> r.show_tutorial@[i],
    {
        PersistentGameState { show_rewind_screen_dialogue: true, show_tutorial: [true, true, true, true] }
    }

    /// Whether the rewind screen's dialogue is to be played now; it is played
    /// once.
    pub fn take_rewind_screen_dialogue(&mut self) -> (r: bool)
        ensures
            r == old(self).show_rewind_screen_dialogue,
            !final(self).show_rewind_screen_dialogue,
            final(self).show_tutorial == old(self).show_tutorial,
    {
        let r = self.show_rewind_screen_dialogue;
        self.show_rewind_screen_dialogue = false;
        r
    }
}

impl Default for PersistentGameState {
    fn default() -> (r: PersistentGameState)
        ensures
            r.show_rewind_screen_dialogue,
            forall|i: int| 0 <= i < 4 ==> r.show_tutorial@[i],
    {
        PersistentGameState::new()
    }
}

/// The units of a kind that fall sick: the roll, but at least two, and never
/// all of them (none of one or zero).
pub open spec fn sick_share(count: nat, roll: nat) -> nat {
    let at_least_two: nat = if roll > 2 { roll } else { 2 };
    let most: nat = if count > 1 { (count - 1) as nat } else { 0 };
    if at_least_two < most { at_least_two } else { most }
}

/// Whether every count of `a` plus the counts of `b` and `c` fits.
pub open spec fn fits3(a: UnitComposition, b: UnitComposition, c: UnitComposition) -> bool {
    forall|k: UnitKind| a.count(k) + b.count(k) + c.count(k) <= usize::MAX
}

/// Whether the item brings the modifier `m` into battle.
pub open spec fn item_brings(item: Item, m: BattleModifier) -> bool {
    item_modifiers(item)[0] == m || item_modifiers(item)[1] == m
}

/// Whether some of the items bring the modifier `m` into battle.
pub open spec fn items_bring(items: Seq<Item>, m: BattleModifier) -> bool {
    exists|i: int| 0 <= i < items.len() && #[trigger] item_brings(items[i], m)
}

/// The global variables after the items are used: bog hard-weeds set
/// `UsedBogHardWeed`.
pub open spec fn vars_after_items(vars: Seq<(Seq<char>, bool)>, items: Seq<Item>) -> Seq<(Seq<char>, bool)>
    decreases items.len(),
{
    if items.len() == 0 {
        vars
    } else {
        let before = vars_after_items(vars, items.drop_last());
        if items.last() == Item::BogHardWeeds {
            var_insert(before, "UsedBogHardWeed"@, true)
        } else {
            before
        }
    }
}

/// Whether the game can carry out a dialogue instruction: adding units or food
/// must fit, and no more units can be taken away than there are.
pub open spec fn instruction_fits(v: GameStateView, i: InstructionView) -> bool {
    match i {
        InstructionView::AddUnits(k, n) => v.available_army.count(k) + n <= usize::MAX,
        InstructionView::SubtractUnits(k, n) => n <= v.available_army.count(k),
        InstructionView::AddFood(n) => v.food + n <= usize::MAX,
        _ => true,
    }
}

/// What a dialogue instruction does to the game: units are added to or taken
/// from the available army, food is added or taken (never below zero), an
/// item goes into the inventory, or a global variable is set.
pub open spec fn instruction_effect(v: GameStateView, i: InstructionView) -> GameStateView {
    match i {
        InstructionView::AddUnits(k, n) => GameStateView {
            available_army: with_count(v.available_army, k, (v.available_army.count(k) + n) as usize),
            ..v
        },
        InstructionView::SubtractUnits(k, n) => GameStateView {
            available_army: with_count(v.available_army, k, (v.available_army.count(k) - n) as usize),
            ..v
        },
        InstructionView::AddFood(n) => GameStateView { food: (v.food + n) as usize, ..v },
        InstructionView::SubtractFood(n) => GameStateView {
            food: if n > v.food { 0 } else { (v.food - n) as usize },
            ..v
        },
        InstructionView::AddItem(item) => GameStateView { inventory: v.inventory.push(item), ..v },
        InstructionView::SetGlobalVariable(name, value) => GameStateView {
            global_variables: var_insert(v.global_variables, name, value),
            ..v
        },
    }
}

/// `rand::Rng::gen_range` over `0..=max` on the thread's random number
/// generator: a number from 0 to `max`.
#[verifier::external_body]
fn random_at_most(max: usize) -> (r: usize)
    ensures
        r <= max,
{
    rand::thread_rng().gen_range(0..=max)
}

/// Draws a roll for each kind of unit in `army` (in the order peasants,
/// warriors, archers, mages, brutes): from 0 to half of the kind's units.
fn draw_rolls(army: &UnitComposition) -> (r: [usize; 5])
    ensures
        forall|j: int| 0 <= j < 5 ==> #[trigger] r@[j] <= army.count(kind_at(j)) / 2,
{
    let kinds = all_unit_kinds();
    let mut rolls: [usize; 5] = [0; 5];
    let mut i: usize = 0;
    while i < 5
        invariant
            kinds.len() == 5,
            forall|j: int| 0 <= j < 5 ==> #[trigger] kinds@[j] == kind_at(j),
            i <= 5,
            forall|j: int| 0 <= j < i ==> #[trigger] rolls@[j] <= army.count(kind_at(j)) / 2,
        decreases 5 - i,
    {
        let c = army.get_count(kinds[i]);
        rolls[i] = random_at_most(c / 2);
        i = i + 1;
    }
    rolls
}

/// Whether some of the first items, and then `x`, bring `m`: the same as
/// some of the first items bringing it, or `x` bringing it.
pub proof fn lemma_items_bring_push(items: Seq<Item>, x: Item, m: BattleModifier)
    ensures
        items_bring(items.push(x), m) == (items_bring(items, m) || item_brings(x, m)),
{
    if items_bring(items, m) {
        let i = choose|i: int| 0 <= i < items.len() && #[trigger] item_brings(items[i], m);
        assert(items.push(x)[i] == items[i]);
    }
    if item_brings(x, m) {
        assert(items.push(x)[items.len() as int] == x);
    }
    if items_bring(items.push(x), m) {
        let i = choose|i: int| 0 <= i < items.push(x).len() && #[trigger] item_brings(items.push(x)[i], m);
        if i < items.len() {
            assert(items.push(x)[i] == items[i]);
        }
    }
}

/// The army `a` with the units of `b` taken out, kind by kind, never below
/// zero.
pub open spec fn army_minus(a: UnitComposition, b: UnitComposition) -> UnitComposition {
    UnitComposition {
        peasants: if b.peasants > a.peasants { 0 } else { (a.peasants - b.peasants) as usize },
        warriors: if b.warriors > a.warriors { 0 } else { (a.warriors - b.warriors) as usize },
        archers: if b.archers > a.archers { 0 } else { (a.archers - b.archers) as usize },
        mages: if b.mages > a.mages { 0 } else { (a.mages - b.mages) as usize },
        brutes: if b.brutes > a.brutes { 0 } else { (a.brutes - b.brutes) as usize },
    }
}

/// The quest moved on to the next battle.
pub open spec fn quest_after_next(q: Quest) -> Quest {
    Quest {
        war_chef: quest_next(q.war_chef as int, q.battle as int).0 as usize,
        battle: quest_next(q.war_chef as int, q.battle as int).1 as usize,
        ..q
    }
}

/// The state after a won battle: the dead units are gone from the available
/// army and the quest moves on.
pub open spec fn after_victory(v: GameStateView, dead: UnitComposition) -> GameStateView {
    GameStateView {
        available_army: army_minus(v.available_army, dead),
        quest: quest_after_next(v.quest),
        ..v
    }
}

/// The states as mathematical values.
pub open spec fn states_view(s: Seq<GameState>) -> Seq<GameStateView> {
    s.map_values(|g: GameState| g@)
}

/// The sequence in reverse order.
pub open spec fn reversed<A>(s: Seq<A>) -> Seq<A> {
    Seq::new(s.len(), |j: int| s[s.len() - 1 - j])
}

/// The stages the rewind screen offers: the saved states, the oldest first.
pub open spec fn rewind_stages_of(v: GameStateView) -> Seq<GameStateView> {
    reversed(checkpoint_chain(v.checkpoint))
}

/// One place of the rewind screen's grid: its row and column, the stage it
/// stands for, whether that stage exists and whether it is selected.
#[derive(Clone, Copy, Debug, PartialEq, Eq, Structural)]
pub struct StageSlot {
    pub row: usize,
    pub column: usize,
    pub index: usize,
    pub enabled: bool,
    pub selected: bool,
}

/// The number of places in each row of the rewind screen's grid.
pub open spec fn row_length(row: int) -> int {
    if row == 2 || row == 3 {
        4
    } else {
        3
    }
}

/// The first place of each row of the rewind screen's grid.
pub open spec fn row_start(row: int) -> int {
    if row == 0 {
        0
    } else if row == 1 {
        3
    } else if row == 2 {
        6
    } else if row == 3 {
        10
    } else if row == 4 {
        14
    } else {
        17
    }
}

/// The row of the place `i` of the rewind screen's grid.
pub open spec fn row_of(i: int) -> int {
    if i < 3 {
        0
    } else if i < 6 {
        1
    } else if i < 10 {
        2
    } else if i < 14 {
        3
    } else {
        4
    }
}

/// The seventeen places of the rewind screen's grid, in rows of three, three,
/// four, four and three, for `len` stages with the stage `selected` selected.
pub open spec fn stage_slots_of(len: int, selected: int) -> Seq<StageSlot> {
    Seq::new(
        17,
        |i: int|
            StageSlot {
                row: row_of(i) as usize,
                column: (i - row_start(row_of(i))) as usize,
                index: i as usize,
                enabled: i < len,
                selected: i == selected,
            },
    )
}

/// The rewind screen: the saved states to go back to, the oldest first, and
/// the one selected.
#[derive(Debug)]
pub struct RewindState {
    stages: Vec<GameState>,
    selected: usize,
}

impl RewindState {
    /// The stages as mathematical values.
    pub closed spec fn stages_spec(&self) -> Seq<GameStateView> {
        states_view(self.stages@)
    }

    /// The selected stage.
    pub closed spec fn selected_spec(&self) -> nat {
        self.selected as nat
    }

    /// No stage.
    pub fn new() -> (r: RewindState)
        ensures
            r.stages_spec().len() == 0,
            r.selected_spec() == 0,
    {
        RewindState { stages: Vec::new(), selected: 0 }
    }

    /// The number of stages.
    pub fn len(&self) -> (r: usize)
        ensures
            r == self.stages_spec().len(),
    {
        self.stages.len()
    }

    /// The selected stage.
    pub fn selected(&self) -> (r: usize)
        ensures
            r == self.selected_spec(),
    {
        self.selected
    }

    /// Selects the stage `index`, when there is such a stage.
    pub fn select(&mut self, index: usize)
        ensures
            final(self).stages_spec() == old(self).stages_spec(),
            final(self).selected_spec() == (if index < old(self).stages_spec().len() {
                index as nat
            } else {
                old(self).selected_spec()
            }),
    {
        if index < self.stages.len() {
            self.selected = index;
        }
    }

    /// Whether going back to the selected stage loses progress: it is not the
    /// latest one.
    pub fn progress_lost(&self) -> (r: bool)
        requires
            self.stages_spec().len() > 0,
        ensures
            r == (self.selected_spec() != self.stages_spec().len() - 1),
    {
        self.selected != self.stages.len() - 1
    }

    /// The stage `index`.
    pub fn stage(&self, index: usize) -> (r: &GameState)
        requires
            index < self.stages_spec().len(),
        ensures
            r@ == self.stages_spec()[index as int],
    {
        &self.stages[index]
    }

    /// Going back to the selected stage: the state to play on, with itself
    /// saved as the checkpoint.
    pub fn confirm(&self) -> (r: GameState)
        requires
            self.selected_spec() < self.stages_spec().len(),
        ensures
            r@ == checkpointed(self.stages_spec()[self.selected_spec() as int]),
    {
        let mut g = self.stages[self.selected].duplicate();
        g.checkpoint();
        g
    }

    /// The places of the rewind screen's grid (see `stage_slots_of`).
    pub fn stage_slots(&self) -> (r: Vec<StageSlot>)
        ensures
            r@ == stage_slots_of(self.stages_spec().len() as int, self.selected_spec() as int),
    {
        let ghost want = stage_slots_of(self.stages_spec().len() as int, self.selected_spec() as int);
        let mut r: Vec<StageSlot> = Vec::new();
        let mut stage_index: usize = 0;
        let mut y: usize = 0;
        while y < 5
            invariant
                y <= 5,
                stage_index == row_start(y as int),
                want == stage_slots_of(self.stages_spec().len() as int, self.selected_spec() as int),
                r@ == want.take(stage_index as int),
            decreases 5 - y,
        {
            let count: usize = match y {
                0 => 3,
                1 => 3,
                2 => 4,
                3 => 4,
                _ => 3,
            };
            assert(count == row_length(y as int));
            let mut x: usize = 0;
            while x < count
                invariant
                    y < 5,
                    count == row_length(y as int),
                    x <= count,
                    stage_index == row_start(y as int) + x,
                    want == stage_slots_of(self.stages_spec().len() as int, self.selected_spec() as int),
                    r@ == want.take(stage_index as int),
                decreases count - x,
            {
                let slot = StageSlot {
                    row: y,
                    column: x,
                    index: stage_index,
                    enabled: stage_index < self.stages.len(),
                    selected: stage_index == self.selected,
                };
                assert(row_of(stage_index as int) == y);
                assert(slot == want[stage_index as int]);
                r.push(slot);
                assert(want.take(stage_index + 1) =~= want.take(stage_index as int).push(slot));
                stage_index = stage_index + 1;
                x = x + 1;
            }
            assert(row_start(y as int) + row_length(y as int) == row_start(y + 1));
            y = y + 1;
        }
        assert(want.take(17) =~= want);
        r
    }
}

impl Default for RewindState {
    fn default() -> (r: RewindState)
        ensures
            r.stages_spec().len() == 0,
            r.selected_spec() == 0,
    {
        RewindState::new()
    }
}

/// The item dialogues played in the intermission, in the order the items
/// were used: each used item's dialogue, when it was not seen before (also
/// not earlier in the same list) and the item has one.
pub open spec fn item_dialogue_names(q: Quest, items: Seq<Item>) -> Seq<Seq<char>>
    decreases items.len(),
{
    if items.len() == 0 {
        Seq::empty()
    } else {
        let before = items.drop_last();
        let it = items.last();
        let names = item_dialogue_names(q, before);
        if !(q.seen(it) || before.contains(it)) && item_dialogue_name(it, q.war_chef as int, q.battle as int) is Some {
            names.push(item_dialogue_name(it, q.war_chef as int, q.battle as int).unwrap())
        } else {
            names
        }
    }
}

/// Whether every dialogue the intermission plays is in `articy`: those of the
/// used items seen for the first time, and the one before planning.
pub open spec fn intermission_dialogues_present(v: GameStateView, articy: crate::articy::ArticyView) -> bool {
    &&& forall|i: int|
        0 <= i < item_dialogue_names(v.quest, v.used_items).len() ==> articy.has_dialogue(
            #[trigger] item_dialogue_names(v.quest, v.used_items)[i],
        )
    &&& preplanning_name(v.quest.war_chef as int, v.quest.battle as int) matches Some(n) ==> articy.has_dialogue(n)
}

/// The item dialogues of the first items are those of one item fewer,
/// followed by the last item's when it is new and has one.
pub proof fn lemma_item_names_prefix(q: Quest, items: Seq<Item>, i: int)
    requires
        0 <= i < items.len(),
    ensures
        item_dialogue_names(q, items.take(i + 1)) == if !(q.seen(items[i]) || items.take(i).contains(items[i]))
            && item_dialogue_name(items[i], q.war_chef as int, q.battle as int) is Some {
            item_dialogue_names(q, items.take(i)).push(item_dialogue_name(items[i], q.war_chef as int, q.battle as int).unwrap())
        } else {
            item_dialogue_names(q, items.take(i))
        },
{
    assert(items.take(i + 1).drop_last() =~= items.take(i));
    assert(items.take(i + 1).last() == items[i]);
}

/// The item dialogues of the first items come first among those of all the
/// items.
pub proof fn lemma_item_names_prefix_of(q: Quest, items: Seq<Item>, k: int)
    requires
        0 <= k <= items.len(),
    ensures
        item_dialogue_names(q, items.take(k)).len() <= item_dialogue_names(q, items).len(),
        forall|j: int|
            0 <= j < item_dialogue_names(q, items.take(k)).len() ==> #[trigger] item_dialogue_names(q, items.take(k))[j]
                == item_dialogue_names(q, items)[j],
    decreases items.len(),
{
    if k == items.len() {
        assert(items.take(k) =~= items);
    } else {
        assert(items.drop_last().take(k) =~= items.take(k));
        lemma_item_names_prefix_of(q, items.drop_last(), k);
    }
}

/// After a checkpoint the rewind screen offers one stage more than there
/// were saved states before, the newest being the state as it was.
pub proof fn law_rewind_stages_after_checkpoint(v: GameStateView)
    ensures
        rewind_stages_of(checkpointed(v)).len() == checkpoint_chain(v.checkpoint).len() + 1,
        rewind_stages_of(checkpointed(v)).last() == v,
{
    assert(checkpoint_chain(checkpointed(v).checkpoint) == seq![v] + checkpoint_chain(v.checkpoint));
}

impl GameState {
    /// The start of a campaign: no food, no army, the first battle ahead,
    /// nothing known, no variable, no item, no loot and no checkpoint.
    pub fn new() -> (r: GameState)
        ensures
            r@.food == 0,
            forall|k: UnitKind|
                r@.available_army.count(k) == 0 && r@.fed_army.count(k) == 0 && r@.sick_army.count(k) == 0,
            r@.quest.war_chef == 0 && r@.quest.battle == 0,
            forall|i: Item| !r@.quest.seen(i),
            forall|k: UnitKind| !r@.intel.sees(k),
            r@.global_variables.len() == 0,
            r@.inventory.len() == 0,
            r@.used_items.len() == 0,
            r@.consumed_items.len() == 0,
            r@.loot.is_empty(),
            r@.checkpoint is None,
    {
        GameState {
            food: 0,
            available_army: UnitComposition::empty(),
            fed_army: UnitComposition::empty(),
            sick_army: UnitComposition::empty(),
            quest: Quest::new(),
            intel: Intel::new(),
            global_variables: GlobalVariables::new(),
            inventory: Inventory::default(),
            used_items: Vec::new(),
            consumed_items: Vec::new(),
            loot: Loot::new(),
            checkpoint: None,
        }
    }

    /// A copy of the state, its checkpoints included.
    pub fn duplicate(&self) -> (r: GameState)
        ensures
            r@ == self@,
        decreases self,
    {
        let checkpoint = match &self.checkpoint {
            Some(c) => Some(Box::new((**c).duplicate())),
            None => None,
        };
        GameState {
            food: self.food,
            available_army: self.available_army,
            fed_army: self.fed_army,
            sick_army: self.sick_army,
            quest: self.quest,
            intel: self.intel,
            global_variables: self.global_variables.duplicate(),
            inventory: self.inventory.duplicate(),
            used_items: copy_items(&self.used_items),
            consumed_items: copy_items(&self.consumed_items),
            loot: self.loot,
            checkpoint,
        }
    }

    /// Moves the fed army into the available army and hands it over for
    /// battle.
    pub fn get_and_reset_fed_army(&mut self) -> (r: UnitComposition)
        requires
            old(self).available_army.can_add(old(self).fed_army),
        ensures
            r == old(self)@.fed_army,
            forall|k: UnitKind|
                final(self)@.available_army.count(k) == old(self)@.available_army.count(k) + old(
                    self,
                )@.fed_army.count(k),
            forall|k: UnitKind| final(self)@.fed_army.count(k) == 0,
            final(self)@ == (GameStateView {
                available_army: final(self)@.available_army,
                fed_army: final(self)@.fed_army,
                ..old(self)@
            }),
    {
        let fed = self.fed_army;
        self.fed_army = UnitComposition::empty();
        self.available_army.add_units(&fed);
        fed
    }

    /// Puts the sick units back into the available army.
    pub fn undo_sickness(&mut self)
        requires
            old(self).available_army.can_add(old(self).sick_army),
        ensures
            forall|k: UnitKind|
                final(self)@.available_army.count(k) == old(self)@.available_army.count(k) + old(
                    self,
                )@.sick_army.count(k),
            forall|k: UnitKind| final(self)@.sick_army.count(k) == 0,
            final(self)@ == (GameStateView {
                available_army: final(self)@.available_army,
                sick_army: final(self)@.sick_army,
                ..old(self)@
            }),
    {
        let sick = self.sick_army;
        self.available_army.add_units(&sick);
        self.sick_army = UnitComposition::empty();
    }

    /// Puts last battle's sick units back, then, when `sick`, makes
    /// `sick_share` of each kind sick, with `rolls` giving the roll for each
    /// kind (in the order peasants, warriors, archers, mages, brutes).
    #[verifier::spinoff_prover]
    pub fn apply_sickness_rolls(&mut self, sick: bool, rolls: [usize; 5])
        requires
            old(self).available_army.can_add(old(self).sick_army),
        ensures
            forall|k: UnitKind| #![trigger final(self)@.sick_army.count(k)] {
                let total = old(self)@.available_army.count(k) + old(self)@.sick_army.count(k);
                &&& final(self)@.sick_army.count(k) == (if sick {
                    sick_share(total, rolls@[unit_index(k) as int] as nat)
                } else {
                    0
                })
                &&& final(self)@.available_army.count(k) + final(self)@.sick_army.count(k) == total
            },
            final(self)@ == (GameStateView {
                available_army: final(self)@.available_army,
                sick_army: final(self)@.sick_army,
                ..old(self)@
            }),
    {
        self.undo_sickness();
        if sick {
            let ghost mid = self@;
            let kinds = all_unit_kinds();
            let mut i: usize = 0;
            while i < 5
                invariant
                    kinds.len() == 5,
                    forall|j: int| 0 <= j < 5 ==> #[trigger] kinds@[j] == kind_at(j),
                    forall|j: int| 0 <= j < 5 ==> unit_index(#[trigger] kind_at(j)) == j,
                    i <= 5,
                    forall|k: UnitKind| #[trigger] mid.sick_army.count(k) == 0,
                    forall|k: UnitKind|
                        unit_index(k) < i ==> #[trigger] self.sick_army.count(k) == sick_share(
                            mid.available_army.count(k),
                            rolls@[unit_index(k) as int] as nat,
                        ) && self.available_army.count(k) + self.sick_army.count(k)
                            == mid.available_army.count(k),
                    forall|k: UnitKind|
                        unit_index(k) >= i ==> #[trigger] self.sick_army.count(k) == 0
                            && self.available_army.count(k) == mid.available_army.count(k),
                    self@ == (GameStateView {
                        available_army: self@.available_army,
                        sick_army: self@.sick_army,
                        ..mid
                    }),
                decreases 5 - i,
            {
                let k = kinds[i];
                assert(forall|k2: UnitKind| #[trigger] unit_index(k2) == i ==> k2 == k);
                assert(unit_index(kind_at(i as int)) == i);
                assert(unit_index(k) == i);
                assert(self.sick_army.count(k) == 0);
                assert(self.available_army.count(k) == mid.available_army.count(k));
                let count = self.available_army.get_count(k);
                let roll = rolls[i];
                assert(roll == rolls@[unit_index(k) as int]);
                let at_least_two: usize = if roll > 2 { roll } else { 2 };
                let most: usize = if count > 1 { count - 1 } else { 0 };
                let share: usize = if at_least_two < most { at_least_two } else { most };
                let ghost before_sick = self.sick_army;
                let ghost before_avail = self.available_army;
                self.available_army.set_count(k, count - share);
                self.sick_army.set_count(k, share);
                assert(unit_index(kind_at(i as int)) == i);
                assert(self.sick_army.count(k) == share);
                assert(self.available_army.count(k) == count - share);
                assert(share == sick_share(mid.available_army.count(k), rolls@[unit_index(k) as int] as nat));
                assert(forall|k2: UnitKind| k2 != k ==> #[trigger] self.sick_army.count(k2) == before_sick.count(k2));
                assert(forall|k2: UnitKind| k2 != k ==> #[trigger] self.available_army.count(k2) == before_avail.count(k2));
                i = i + 1;
            }
            assert forall|k: UnitKind| unit_index(k) < 5 by {}
        }
    }

    /// Puts last battle's sick units back, then, when `sick`, makes some of
    /// each kind sick: `sick_share` of a roll drawn from 0 to half of the
    /// kind's units.
    #[verifier::spinoff_prover]
    pub fn apply_sickness(&mut self, sick: bool)
        requires
            old(self).available_army.can_add(old(self).sick_army),
        ensures
            forall|k: UnitKind| #![trigger final(self)@.sick_army.count(k)] {
                let total = old(self)@.available_army.count(k) + old(self)@.sick_army.count(k);
                &&& final(self)@.available_army.count(k) + final(self)@.sick_army.count(k) == total
                &&& !sick ==> final(self)@.sick_army.count(k) == 0
                &&& sick ==> exists|roll: nat|
                    roll <= total / 2 && final(self)@.sick_army.count(k) == #[trigger] sick_share(total, roll)
            },
            final(self)@ == (GameStateView {
                available_army: final(self)@.available_army,
                sick_army: final(self)@.sick_army,
                ..old(self)@
            }),
    {
        self.undo_sickness();
        let ghost mid = self@;
        let rolls: [usize; 5] = if sick {
            draw_rolls(&self.available_army)
        } else {
            [0; 5]
        };
        self.apply_sickness_rolls(sick, rolls);
        proof {
            assert forall|k: UnitKind| sick implies exists|roll: nat|
                roll <= (old(self)@.available_army.count(k) + old(self)@.sick_army.count(k)) / 2
                    && #[trigger] self@.sick_army.count(k) == #[trigger] sick_share(
                    old(self)@.available_army.count(k) + old(self)@.sick_army.count(k),
                    roll,
                ) by {
                let j = unit_index(k) as int;
                assert(0 <= j < 5);
                assert(kind_at(j) == k);
                let roll = rolls@[j] as nat;
                assert(roll <= mid.available_army.count(k) / 2);
                assert(self@.sick_army.count(k) == sick_share(mid.available_army.count(k), roll));
            }
        }
    }

    /// Carries out a dialogue instruction (see `instruction_effect`).
    pub fn apply_instruction(&mut self, instruction: &ArticyDialogueInstruction)
        requires
            instruction_fits(old(self)@, instruction@),
        ensures
            final(self)@ == instruction_effect(old(self)@, instruction@),
    {
        match instruction {
            ArticyDialogueInstruction::AddUnits(k, n) => {
                let c = self.available_army.get_count(*k);
                self.available_army.set_count(*k, c + *n);
            },
            ArticyDialogueInstruction::SubtractUnits(k, n) => {
                let c = self.available_army.get_count(*k);
                self.available_army.set_count(*k, c - *n);
            },
            ArticyDialogueInstruction::AddFood(n) => {
                self.food = self.food + *n;
            },
            ArticyDialogueInstruction::SubtractFood(n) => {
                if *n > self.food {
                    self.food = 0;
                } else {
                    self.food = self.food - *n;
                }
            },
            ArticyDialogueInstruction::AddItem(item) => {
                self.inventory.add(*item);
            },
            ArticyDialogueInstruction::SetGlobalVariable(name, value) => {
                self.global_variables.insert(name.clone(), *value);
            },
        }
    }

    /// Gets the army ready for the coming battle and describes the battle:
    /// the fed army marches under the player's banner with the modifiers of
    /// the consumed items (which become the used items, bog hard-weeds
    /// setting `UsedBogHardWeed`), sickness is applied when an item brings it,
    /// the enemy comes as the quest says, and the intel is forgotten.
    #[verifier::spinoff_prover]
    pub fn prepare_battle(&mut self) -> (r: BattleConfig)
        requires
            fits3(old(self).available_army, old(self).fed_army, old(self).sick_army),
        ensures
            r.friendly_units == old(self)@.fed_army,
            forall|m: BattleModifier| r.friendly_modifiers.has(m) == items_bring(old(self)@.consumed_items, m),
            r.friendly_banner == Banner::Player,
            r.enemy_units == enemy_units(old(self)@.quest.war_chef as int, old(self)@.quest.battle as int),
            forall|m: BattleModifier|
                r.enemy_modifiers.has(m) == enemy_modifier_on(
                    old(self)@.quest.war_chef as int,
                    old(self)@.quest.battle as int,
                    m,
                ),
            r.enemy_banner == war_chef_banner(old(self)@.quest.war_chef as int),
            final(self)@.used_items == old(self)@.consumed_items,
            final(self)@.consumed_items.len() == 0,
            final(self)@.global_variables == vars_after_items(
                old(self)@.global_variables,
                old(self)@.consumed_items,
            ),
            forall|k: UnitKind| !final(self)@.intel.sees(k),
            forall|k: UnitKind| final(self)@.fed_army.count(k) == 0,
            forall|k: UnitKind| #![trigger final(self)@.sick_army.count(k)] {
                let total = old(self)@.available_army.count(k) + old(self)@.fed_army.count(k) + old(
                    self,
                )@.sick_army.count(k);
                let sick = items_bring(old(self)@.consumed_items, BattleModifier::Sickness);
                &&& final(self)@.available_army.count(k) + final(self)@.sick_army.count(k) == total
                &&& !sick ==> final(self)@.sick_army.count(k) == 0
                &&& sick ==> exists|roll: nat|
                    roll <= total / 2 && final(self)@.sick_army.count(k) == #[trigger] sick_share(total, roll)
            },
            final(self)@ == (GameStateView {
                available_army: final(self)@.available_army,
                fed_army: final(self)@.fed_army,
                sick_army: final(self)@.sick_army,
                intel: final(self)@.intel,
                global_variables: final(self)@.global_variables,
                used_items: final(self)@.used_items,
                consumed_items: final(self)@.consumed_items,
                ..old(self)@
            }),
    {
        let friendly_units = self.get_and_reset_fed_army();
        let mut friendly_modifiers = BattleModifiers::new();
        let mut sick = false;
        self.used_items = Vec::new();
        let mut consumed: Vec<Item> = Vec::new();
        std::mem::swap(&mut consumed, &mut self.consumed_items);
        let ghost mid = self@;
        let ghost vars0 = self@.global_variables;
        assert(consumed@ == old(self)@.consumed_items);
        let mut i: usize = 0;
        while i < consumed.len()
            invariant
                i <= consumed@.len(),
                forall|m: BattleModifier| friendly_modifiers.has(m) == items_bring(consumed@.take(i as int), m),
                sick == items_bring(consumed@.take(i as int), BattleModifier::Sickness),
                self@.used_items == consumed@.take(i as int),
                self@.global_variables == vars_after_items(vars0, consumed@.take(i as int)),
                self@ == (GameStateView {
                    used_items: self@.used_items,
                    global_variables: self@.global_variables,
                    ..mid
                }),
            decreases consumed.len() - i,
        {
            let item = consumed[i];
            let ghost prefix = consumed@.take(i as int);
            assert(consumed@.take(i + 1) =~= prefix.push(item));
            assert(consumed@.take(i + 1).drop_last() =~= prefix);
            proof {
                assert forall|m: BattleModifier| items_bring(prefix.push(item), m) == (items_bring(prefix, m)
                    || item_brings(item, m)) by {
                    lemma_items_bring_push(prefix, item, m);
                }
            }
            let mods = item.modifiers();
            assert(mods@.len() == 2);
            friendly_modifiers.set(mods[0], true);
            friendly_modifiers.set(mods[1], true);
            if mods[0] == BattleModifier::Sickness || mods[1] == BattleModifier::Sickness {
                sick = true;
            }
            assert forall|m: BattleModifier| friendly_modifiers.has(m) == items_bring(prefix.push(item), m) by {
                lemma_items_bring_push(prefix, item, m);
            }
            if item == Item::BogHardWeeds {
                self.global_variables.insert("UsedBogHardWeed".to_owned(), true);
            }
            self.used_items.push(item);
            i = i + 1;
        }
        assert(consumed@.take(i as int) =~= consumed@);
        assert(self@.consumed_items.len() == 0);
        let ghost before_sickness = self@;
        self.apply_sickness(sick);
        let ghost after_sickness = self@;
        let config = BattleConfig {
            friendly_units,
            friendly_modifiers,
            friendly_banner: Banner::Player,
            enemy_units: self.quest.enemy_unit_composition(),
            enemy_modifiers: self.quest.enemy_modifiers(),
            enemy_banner: Banner::for_war_chef(self.quest.war_chef),
        };
        self.intel = Intel::new();
        proof {
            assert(sick == items_bring(old(self)@.consumed_items, BattleModifier::Sickness));
            assert forall|k: UnitKind| #![trigger self@.sick_army.count(k)] {
                let total = old(self)@.available_army.count(k) + old(self)@.fed_army.count(k) + old(
                    self,
                )@.sick_army.count(k);
                &&& self@.available_army.count(k) + self@.sick_army.count(k) == total
                &&& !sick ==> self@.sick_army.count(k) == 0
                &&& sick ==> exists|roll: nat|
                    roll <= total / 2 && self@.sick_army.count(k) == #[trigger] sick_share(total, roll)
            } by {
                let total = before_sickness.available_army.count(k) + before_sickness.sick_army.count(k);
                assert(before_sickness.available_army.count(k) == old(self)@.available_army.count(k) + old(
                    self,
                )@.fed_army.count(k));
                assert(before_sickness.sick_army.count(k) == old(self)@.sick_army.count(k));
                assert(after_sickness.sick_army.count(k) == self@.sick_army.count(k));
                assert(after_sickness.available_army.count(k) == self@.available_army.count(k));
                if sick {
                    let roll = choose|roll: nat|
                        roll <= total / 2 && after_sickness.sick_army.count(k) == #[trigger] sick_share(total, roll);
                    assert(roll <= total / 2 && self@.sick_army.count(k) == sick_share(total, roll));
                }
            }
        }
        config
    }

    /// A battle ended: after a victory the dead units leave the army, the
    /// quest moves on, a checkpoint is taken and the intermission follows;
    /// after a defeat the rewind screen follows and nothing changes.
    pub fn on_battle_ended(&mut self, report: &BattleReport) -> (r: AppState)
        requires
            report.victory ==> old(self).quest.battle < usize::MAX,
        ensures
            report.victory ==> r == AppState::GameIntermission && final(self)@ == checkpointed(
                after_victory(old(self)@, report.dead_units),
            ),
            !report.victory ==> r == AppState::GameRewind && final(self)@ == old(self)@,
    {
        if report.victory {
            self.available_army.subtract_units(&report.dead_units);
            assert(self.available_army.count(UnitKind::Peasant) == army_minus(old(self).available_army, report.dead_units).count(UnitKind::Peasant));
            assert(self.available_army.count(UnitKind::Warrior) == army_minus(old(self).available_army, report.dead_units).count(UnitKind::Warrior));
            assert(self.available_army.count(UnitKind::Archer) == army_minus(old(self).available_army, report.dead_units).count(UnitKind::Archer));
            assert(self.available_army.count(UnitKind::Mage) == army_minus(old(self).available_army, report.dead_units).count(UnitKind::Mage));
            assert(self.available_army.count(UnitKind::Brute) == army_minus(old(self).available_army, report.dead_units).count(UnitKind::Brute));
            self.quest.next();
            assert(self@ == after_victory(old(self)@, report.dead_units));
            self.checkpoint();
            AppState::GameIntermission
        } else {
            AppState::GameRewind
        }
    }

    /// Planning ended: a rewind goes back to the checkpoint before the last
    /// one, takes a checkpoint and shows the rewind screen; a skip moves the
    /// quest on, takes a checkpoint and shows the intermission; otherwise the
    /// battle follows and nothing changes.
    pub fn on_planning_ended(&mut self, rewind: bool, skip: bool) -> (r: AppState)
        requires
            !rewind && skip ==> old(self).quest.battle < usize::MAX,
        ensures
            rewind ==> r == AppState::GameRewind && final(self)@ == checkpointed(rewound(old(self)@)),
            !rewind && skip ==> r == AppState::GameIntermission && final(self)@ == checkpointed(
                GameStateView { quest: quest_after_next(old(self)@.quest), ..old(self)@ },
            ),
            !rewind && !skip ==> r == AppState::GameBattle && final(self)@ == old(self)@,
    {
        if rewind {
            self.rewind();
            self.checkpoint();
            AppState::GameRewind
        } else if skip {
            self.quest.next();
            assert(self@ == (GameStateView { quest: quest_after_next(old(self)@.quest), ..old(self)@ }));
            self.checkpoint();
            AppState::GameIntermission
        } else {
            AppState::GameBattle
        }
    }

    /// Opens the rewind screen: with no checkpoint, one is taken first; the
    /// stages are the saved states, the oldest first, with the latest
    /// selected.
    pub fn enter_rewind(&mut self) -> (r: RewindState)
        ensures
            final(self)@ == (if old(self)@.checkpoint is None {
                checkpointed(old(self)@)
            } else {
                old(self)@
            }),
            r.stages_spec() == rewind_stages_of(final(self)@),
            r.stages_spec().len() > 0,
            r.selected_spec() == r.stages_spec().len() - 1,
    {
        if self.checkpoint.is_none() {
            self.checkpoint();
        }
        let ghost chain = checkpoint_chain(self@.checkpoint);
        let mut stages: Vec<GameState> = Vec::new();
        let mut cur: &Option<Box<GameState>> = &self.checkpoint;
        assert(saved_view(*cur) == self@.checkpoint);
        loop
            invariant
                chain == checkpoint_chain(self@.checkpoint),
                states_view(stages@) + checkpoint_chain(saved_view(*cur)) == chain,
            ensures
                states_view(stages@) == chain,
            decreases checkpoint_chain(saved_view(*cur)).len(),
        {
            match cur {
                Some(c) => {
                    let ghost before = stages@;
                    let ghost rest = checkpoint_chain(saved_view(c.checkpoint));
                    assert(state_view(**c).checkpoint == saved_view(c.checkpoint));
                    assert(checkpoint_chain(saved_view(*cur)) == seq![state_view(**c)] + rest);
                    stages.push((**c).duplicate());
                    assert(states_view(stages@) =~= states_view(before).push(state_view(**c)));
                    assert(states_view(stages@) + rest =~= states_view(before) + (seq![state_view(**c)] + rest));
                    cur = &c.checkpoint;
                },
                None => {
                    assert(checkpoint_chain(saved_view(*cur)) =~= Seq::<GameStateView>::empty());
                    assert(states_view(stages@) =~= states_view(stages@) + checkpoint_chain(saved_view(*cur)));
                    break;
                },
            }
        }
        assert(chain.len() > 0);
        let ghost n = chain.len();
        let mut rev: Vec<GameState> = Vec::new();
        while stages.len() > 0
            invariant
                n == chain.len(),
                stages@.len() <= n,
                states_view(stages@) =~= chain.take(stages@.len() as int),
                states_view(rev@) =~= reversed(chain).take(n - stages@.len()),
            decreases stages.len(),
        {
            let ghost k = stages@.len();
            let ghost old_stages = stages@;
            let g = stages.pop();
            match g {
                Some(g) => {
                    let ghost before = rev@;
                    assert(g == old_stages[k - 1]);
                    assert(states_view(old_stages)[k - 1] == old_stages[k - 1]@);
                    assert(chain.take(k as int)[k - 1] == chain[k - 1]);
                    assert(g@ == chain[k - 1]);
                    rev.push(g);
                    assert(states_view(rev@) =~= states_view(before).push(chain[k - 1]));
                    assert(reversed(chain).take(n - (k - 1)) =~= reversed(chain).take(n - k).push(chain[k - 1]));
                    assert(states_view(stages@) =~= chain.take(k - 1));
                },
                None => {},
            }
        }
        assert(reversed(chain).take(n as int) =~= reversed(chain));
        let len = rev.len();
        RewindState { stages: rev, selected: len - 1 }
    }

    /// Starts the intermission: fifteen food is added, and the dialogues to
    /// play are handed back in order: those of the items used in the last
    /// battle and not seen before (which now count as seen), then the one
    /// before planning, if the coming battle has one.
    pub fn enter_intermission(&mut self, articy: &Articy) -> (r: Vec<Script>)
        requires
            old(self).food + 15 <= usize::MAX,
            intermission_dialogues_present(old(self)@, articy@),
        ensures
            r@.map_values(|s: Script| s@) == item_dialogue_names(old(self)@.quest, old(self)@.used_items).map_values(
                |n: Seq<char>| articy@.dialogue(n),
            ) + match preplanning_name(old(self)@.quest.war_chef as int, old(self)@.quest.battle as int) {
                Some(n) => seq![articy@.dialogue(n)],
                None => Seq::empty(),
            },
            final(self)@.food == old(self)@.food + 15,
            final(self)@.quest.war_chef == old(self)@.quest.war_chef,
            final(self)@.quest.battle == old(self)@.quest.battle,
            forall|i: Item| final(self)@.quest.seen(i) == (old(self)@.quest.seen(i) || old(self)@.used_items.contains(i)),
            final(self)@ == (GameStateView { food: final(self)@.food, quest: final(self)@.quest, ..old(self)@ }),
    {
        self.food = self.food + 15;
        let ghost q0 = self.quest;
        let ghost used = self@.used_items;
        let ghost mid = self@;
        let mut scripts: Vec<Script> = Vec::new();
        let mut i: usize = 0;
        while i < self.used_items.len()
            invariant
                i <= used.len(),
                used == self@.used_items,
                self.quest.war_chef == q0.war_chef,
                self.quest.battle == q0.battle,
                forall|it: Item| self.quest.seen(it) == (q0.seen(it) || used.take(i as int).contains(it)),
                intermission_dialogues_present(old(self)@, articy@),
                q0 == old(self)@.quest,
                used == old(self)@.used_items,
                scripts@.map_values(|s: Script| s@) =~= item_dialogue_names(q0, used.take(i as int)).map_values(
                    |n: Seq<char>| articy@.dialogue(n),
                ),
                self@ == (GameStateView { quest: self@.quest, ..mid }),
            decreases used.len() - i,
        {
            let item = self.used_items[i];
            let ghost pre = used.take(i as int);
            assert(used.take(i + 1).drop_last() =~= pre);
            assert(used.take(i + 1).last() == item);
            proof {
                lemma_item_names_prefix(q0, used, i as int);
            }
            let ghost before = scripts@;
            let ghost qb = self.quest;
            proof {
                lemma_item_names_prefix_of(q0, used, i + 1);
                if !qb.seen(item) && item_dialogue_name(item, q0.war_chef as int, q0.battle as int) is Some {
                    let names_i = item_dialogue_names(q0, used.take(i as int));
                    let idx = names_i.len() as int;
                    assert(item_dialogue_names(q0, used.take(i + 1))[idx] == item_dialogue_name(
                        item,
                        q0.war_chef as int,
                        q0.battle as int,
                    ).unwrap());
                    assert(articy@.has_dialogue(item_dialogue_names(q0, used)[idx]));
                }
            }
            let found = self.quest.item_script(item, articy);
            match found {
                Some(sc) => {
                    scripts.push(sc);
                    assert(scripts@.map_values(|s: Script| s@) =~= before.map_values(|s: Script| s@).push(sc@));
                },
                None => {},
            }
            let ghost cur = used.take(i + 1);
            assert forall|it: Item| self.quest.seen(it) == (q0.seen(it) || cur.contains(it)) by {
                assert(qb.seen(it) == (q0.seen(it) || pre.contains(it)));
                if cur.contains(it) && !pre.contains(it) {
                    let w = choose|w: int| 0 <= w < cur.len() && #[trigger] cur[w] == it;
                    if w < i {
                        assert(pre[w] == it);
                    }
                }
                if pre.contains(it) {
                    let w = choose|w: int| 0 <= w < pre.len() && #[trigger] pre[w] == it;
                    assert(cur[w] == it);
                }
                if it == item {
                    assert(cur[i as int] == it);
                }
            }
            i = i + 1;
            assert(cur == used.take(i as int));
        }
        assert(used.take(i as int) =~= used);
        let ghost items_part = scripts@.map_values(|s: Script| s@);
        match self.quest.preplanning_script(articy) {
            Some(sc) => {
                scripts.push(sc);
                assert(scripts@.map_values(|s: Script| s@) =~= items_part.push(sc@));
            },
            None => {},
        }
        scripts
    }

    /// A new campaign: the starting state, with the project's global
    /// variables, saved as its own checkpoint (the intermission follows).
    pub fn start_campaign(articy: &Articy) -> (r: GameState)
        ensures
            r@ == checkpointed(GameStateView { checkpoint: None, ..r@ }),
            r@.food == 0,
            forall|k: UnitKind|
                r@.available_army.count(k) == 0 && r@.fed_army.count(k) == 0 && r@.sick_army.count(k) == 0,
            r@.quest.war_chef == 0 && r@.quest.battle == 0,
            forall|i: Item| !r@.quest.seen(i),
            forall|k: UnitKind| !r@.intel.sees(k),
            r@.global_variables == articy@.global_variables,
            r@.inventory.len() == 0,
            r@.used_items.len() == 0,
            r@.consumed_items.len() == 0,
            r@.loot.is_empty(),
    {
        let mut g = GameState::new();
        let ghost g0 = g@;
        g.global_variables = articy.global_variables().duplicate();
        let ghost before = g@;
        assert(before.available_army == g0.available_army && before.fed_army == g0.fed_army);
        assert(before.sick_army == g0.sick_army && before.intel == g0.intel);
        g.checkpoint();
        assert(g@.available_army == before.available_army);
        assert(g@.fed_army == before.fed_army);
        assert(g@.sick_army == before.sick_army);
        assert(g@.intel == before.intel);
        assert forall|k: UnitKind|
            g@.available_army.count(k) == 0 && g@.fed_army.count(k) == 0 && g@.sick_army.count(k) == 0 by {
            assert(g0.available_army.count(k) == 0 && g0.fed_army.count(k) == 0 && g0.sick_army.count(k) == 0);
        }
        assert forall|k: UnitKind| !g@.intel.sees(k) by {
            assert(!g0.intel.sees(k));
        }
        g
    }

    /// Saves the state as it is as the checkpoint.
    pub fn checkpoint(&mut self)
        ensures
            final(self)@ == checkpointed(old(self)@),
    {
        let saved = self.duplicate();
        self.checkpoint = Some(Box::new(saved));
    }

    /// Goes back to the checkpoint, if there is one.
    pub fn load_checkpoint(&mut self)
        ensures
            final(self)@ == loaded(old(self)@),
    {
        let mut taken: Option<Box<GameState>> = None;
        std::mem::swap(&mut taken, &mut self.checkpoint);
        match taken {
            Some(c) => {
                *self = *c;
            },
            None => {},
        }
    }

    /// Whether there is a checkpoint before the last one.
    pub fn can_rewind(&self) -> (r: bool)
        ensures
            r == rewindable(self@),
    {
        match &self.checkpoint {
            Some(c) => {
                assert((**c)@.checkpoint == saved_view(c.checkpoint));
                c.checkpoint.is_some()
            },
            None => false,
        }
    }

    /// Goes back to the checkpoint before the last one (see `rewound`).
    pub fn rewind(&mut self)
        ensures
            final(self)@ == rewound(old(self)@),
    {
        let mut taken: Option<Box<GameState>> = None;
        std::mem::swap(&mut taken, &mut self.checkpoint);
        match taken {
            Some(c) => {
                let c = *c;
                assert(c@.checkpoint == saved_view(c.checkpoint));
                match c.checkpoint {
                    Some(c2) => {
                        *self = *c2;
                    },
                    None => {},
                }
            },
            None => {},
        }
    }
}

/// Food, units and items won (positive) or lost (negative) in a battle.
#[derive(Clone, Copy, Debug)]
pub struct Loot {
    food: isize,
    units: [isize; 5],
    items: [isize; 7],
}

impl Loot {
    /// The food won or lost.
    pub closed spec fn food_of(self) -> int {
        self.food as int
    }

    /// The units of kind `k` won or lost.
    pub closed spec fn units_of(self, k: UnitKind) -> int {
        self.units@[unit_index(k) as int] as int
    }

    /// The items `i` won or lost.
    pub closed spec fn items_of(self, i: Item) -> int {
        self.items@[crate::items::item_index(i) as int] as int
    }

    /// Whether nothing was won or lost.
    pub open spec fn is_empty(self) -> bool {
        &&& self.food_of() == 0
        &&& forall|k: UnitKind| self.units_of(k) == 0
        &&& forall|i: Item| self.items_of(i) == 0
    }

    /// Nothing won or lost.
    pub fn new() -> (r: Loot)
        ensures
            r.is_empty(),
    {
        Loot { food: 0, units: [0; 5], items: [0; 7] }
    }

    /// Forgets everything won or lost.
    pub fn reset(&mut self)
        ensures
            final(self).is_empty(),
    {
        *self = Loot::new();
    }

    /// Counts `food` more food (negative for food lost).
    pub fn add_food(&mut self, food: isize)
        requires
            isize::MIN <= old(self).food_of() + food <= isize::MAX,
        ensures
            final(self).food_of() == old(self).food_of() + food,
            forall|k: UnitKind| final(self).units_of(k) == old(self).units_of(k),
            forall|i: Item| final(self).items_of(i) == old(self).items_of(i),
    {
        self.food = self.food + food;
    }

    /// Counts `count` more of `item` (negative for items lost).
    pub fn add_items(&mut self, item: Item, count: isize)
        requires
            isize::MIN <= old(self).items_of(item) + count <= isize::MAX,
        ensures
            final(self).items_of(item) == old(self).items_of(item) + count,
            final(self).food_of() == old(self).food_of(),
            forall|k: UnitKind| final(self).units_of(k) == old(self).units_of(k),
            forall|i: Item| i != item ==> final(self).items_of(i) == old(self).items_of(i),
    {
        let i = item.index();
        self.items[i] = self.items[i] + count;
    }

    /// Counts `count` more units of kind `unit` (negative for units lost).
    pub fn add_units(&mut self, unit: UnitKind, count: isize)
        requires
            isize::MIN <= old(self).units_of(unit) + count <= isize::MAX,
        ensures
            final(self).units_of(unit) == old(self).units_of(unit) + count,
            final(self).food_of() == old(self).food_of(),
            forall|k: UnitKind| k != unit ==> final(self).units_of(k) == old(self).units_of(k),
            forall|i: Item| final(self).items_of(i) == old(self).items_of(i),
    {
        let i = unit_kind_index(unit);
        self.units[i] = self.units[i] + count;
    }

    /// The lines of the loot summary: food, then each kind of unit, then
    /// each item, leaving out what is zero (see `loot_entries`).
    pub fn entries(&self) -> (r: Vec<(&'static str, isize)>)
        ensures
            r@.map_values(|e: (&'static str, isize)| (e.0@, e.1 as int)) == loot_entries(*self),
    {
        let mut r: Vec<(&'static str, isize)> = Vec::new();
        if self.food != 0 {
            r.push(("Food", self.food));
        }
        let ghost head = r@.map_values(|e: (&'static str, isize)| (e.0@, e.1 as int));
        assert(head =~= (if self.food_of() != 0 { seq![("Food"@, self.food_of())] } else { Seq::empty() }));
        let kinds = all_unit_kinds();
        let mut i: usize = 0;
        while i < 5
            invariant
                kinds.len() == 5,
                forall|j: int| 0 <= j < 5 ==> #[trigger] kinds@[j] == kind_at(j),
                i <= 5,
                r@.map_values(|e: (&'static str, isize)| (e.0@, e.1 as int)) =~= head + unit_entries(*self, i as nat),
            decreases 5 - i,
        {
            let k = kinds[i];
            let c = self.units[unit_kind_index(k)];
            let ghost before = r@;
            if c != 0 {
                r.push((k.name_plural(), c));
                assert(r@.map_values(|e: (&'static str, isize)| (e.0@, e.1 as int)) =~= before.map_values(
                    |e: (&'static str, isize)| (e.0@, e.1 as int),
                ).push((unit_name_plural(k), c as int)));
            }
            i = i + 1;
        }
        let items = all_items();
        let mut n: usize = 0;
        while n < 7
            invariant
                items.len() == 7,
                forall|j: int| 0 <= j < 7 ==> #[trigger] items@[j] == item_at(j),
                n <= 7,
                r@.map_values(|e: (&'static str, isize)| (e.0@, e.1 as int)) =~= head + unit_entries(*self, 5)
                    + item_entries(*self, n as nat),
            decreases 7 - n,
        {
            let it = items[n];
            let c = self.items[it.index()];
            let ghost before = r@;
            if c != 0 {
                r.push((it.name(), c));
                assert(r@.map_values(|e: (&'static str, isize)| (e.0@, e.1 as int)) =~= before.map_values(
                    |e: (&'static str, isize)| (e.0@, e.1 as int),
                ).push((item_name(it), c as int)));
            }
            n = n + 1;
        }
        r
    }
}

impl Loot {
    /// The texts of the loot summary (see `loot_summary`).
    pub fn summary(&self) -> (r: Vec<String>)
        requires
            forall|j: int| 0 <= j < loot_entries(*self).len() ==> #[trigger] loot_entries(*self)[j].1 != isize::MIN,
        ensures
            r@.map_values(|t: String| t@) == loot_summary(*self),
    {
        let es = self.entries();
        let ghost ev = es@.map_values(|e: (&'static str, isize)| (e.0@, e.1 as int));
        let mut r: Vec<String> = Vec::new();
        if es.len() == 0 {
            assert(r@.map_values(|t: String| t@) =~= Seq::<Seq<char>>::empty());
            return r;
        }
        r.push(string_from_chars(chars_of("Loot Get\n")));
        let mut i: usize = 0;
        assert(ev.take(0) =~= Seq::<(Seq<char>, int)>::empty());
        assert(r@.map_values(|t: String| t@) =~= seq!["Loot Get\n"@] + entry_sections(ev.take(0)));
        while i < es.len()
            invariant
                i <= es@.len(),
                ev == es@.map_values(|e: (&'static str, isize)| (e.0@, e.1 as int)),
                ev == loot_entries(*self),
                forall|j: int| 0 <= j < ev.len() ==> #[trigger] ev[j].1 != isize::MIN,
                r@.map_values(|t: String| t@) =~= seq!["Loot Get\n"@] + entry_sections(ev.take(i as int)),
            decreases es.len() - i,
        {
            let (name, amount) = es[i];
            assert(ev[i as int] == (name@, amount as int));
            assert(ev[i as int].1 != isize::MIN);
            let mut head = chars_of(name);
            append_chars(&mut head, &chars_of(": "));
            let mut tail: Vec<char> = Vec::new();
            if amount > 0 {
                tail.push('+');
                append_chars(&mut tail, &decimal_chars(amount as u64));
            } else {
                tail.push('-');
                append_chars(&mut tail, &decimal_chars((-amount) as u64));
            }
            assert(tail@ =~= amount_text(amount as int));
            tail.push('\n');
            let ghost before = r@.map_values(|t: String| t@);
            r.push(string_from_chars(head));
            r.push(string_from_chars(tail));
            assert(ev.take(i + 1).drop_last() =~= ev.take(i as int));
            assert(r@.map_values(|t: String| t@) =~= before.push(name@ + ": "@).push(amount_text(amount as int).push('\n')));
            i = i + 1;
        }
        assert(ev.take(i as int) =~= ev);
        r
    }
}

impl Default for GameState {
    /// The start of a campaign (see `GameState::new`).
    fn default() -> (r: GameState)
        ensures
            r@.food == 0,
            forall|k: UnitKind|
                r@.available_army.count(k) == 0 && r@.fed_army.count(k) == 0 && r@.sick_army.count(k) == 0,
            r@.quest.war_chef == 0 && r@.quest.battle == 0,
            forall|i: Item| !r@.quest.seen(i),
            forall|k: UnitKind| !r@.intel.sees(k),
            r@.global_variables.len() == 0,
            r@.inventory.len() == 0,
            r@.used_items.len() == 0,
            r@.consumed_items.len() == 0,
            r@.loot.is_empty(),
            r@.checkpoint is None,
    {
        GameState::new()
    }
}

impl Default for Loot {
    fn default() -> (r: Loot)
        ensures
            r.is_empty(),
    {
        Loot::new()
    }
}

} // verus!
