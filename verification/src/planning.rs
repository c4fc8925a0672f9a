use vstd::prelude::*;

use crate::game_state::{GameState, GameStateView, PersistentGameState};
use crate::items::{item_name, item_positive_effect, item_side_effect, without_last, Item};
use crate::quest::{quest_hint, Quest};
use crate::sfx::SfxKind;
use crate::text::{
    chars_of, cut_between_chars, decimal, decimal_chars, string_from_chars, typewriter_cut, typewriter_text,
};
use crate::units::{unit_cost, unit_name, with_count, UnitComposition, UnitKind};

verus! {

/// What the planning screen was asked to do: whether it is open, and whether
/// the battle is to start, be skipped, or a rewind is wanted.
#[derive(Clone, Copy, Debug, PartialEq, Eq, Structural)]
pub struct PlanningState {
    pub planning: bool,
    pub start: bool,
    pub skip: bool,
    pub rewind: bool,
}

impl PlanningState {
    /// Closed, nothing asked.
    pub fn new() -> (r: PlanningState)
        ensures
            r == (PlanningState { planning: false, start: false, skip: false, rewind: false }),
    {
        PlanningState { planning: false, start: false, skip: false, rewind: false }
    }

    /// Closes the planning screen.
    pub fn stop(&mut self)
        ensures
            *final(self) == (PlanningState { planning: false, ..*old(self) }),
    {
        self.planning = false;
    }

    /// Ends planning when it is open and a start, skip or rewind was asked:
    /// hands back whether the battle is skipped (never together with a
    /// rewind) and whether a rewind is wanted, and forgets everything asked.
    pub fn update(&mut self) -> (r: Option<(bool, bool)>)
        ensures
            old(self).planning && (old(self).start || old(self).skip || old(self).rewind) ==> r == Some(
                (old(self).skip && !old(self).rewind, old(self).rewind),
            ) && *final(self) == (PlanningState {
                planning: false,
                start: false,
                skip: false,
                rewind: false,
            }),
            !(old(self).planning && (old(self).start || old(self).skip || old(self).rewind)) ==> r is None
                && *final(self) == *old(self),
    {
        if self.planning && (self.start || self.skip || self.rewind) {
            let r = (self.skip && !self.rewind, self.rewind);
            *self = PlanningState::new();
            Some(r)
        } else {
            None
        }
    }
}

impl Default for PlanningState {
    fn default() -> (r: PlanningState)
        ensures
            r == (PlanningState { planning: false, start: false, skip: false, rewind: false }),
    {
        PlanningState::new()
    }
}

/// What a button of the planning screen stands for.
#[derive(Clone, Copy, Debug, PartialEq, Eq, Structural)]
pub enum PlanningButtonKind {
    Item(Item),
    Unit(UnitKind),
    Noop,
}

/// Whether a button can be used: a unit button while units of its kind are
/// available, an item button while no item was put in the pot yet.
pub open spec fn button_usable(v: GameStateView, kind: PlanningButtonKind) -> bool {
    match kind {
        PlanningButtonKind::Unit(u) => v.available_army.count(u) > 0,
        PlanningButtonKind::Item(_) => v.consumed_items.len() == 0,
        PlanningButtonKind::Noop => false,
    }
}

/// Whether a button can be used (see `button_usable`).
pub fn button_active(game_state: &GameState, kind: PlanningButtonKind) -> (r: bool)
    ensures
        r == button_usable(game_state@, kind),
{
    match kind {
        PlanningButtonKind::Unit(unit) => game_state.available_army.get_count(unit) > 0,
        PlanningButtonKind::Item(_) => game_state.consumed_items.len() == 0,
        PlanningButtonKind::Noop => false,
    }
}

/// The sound a button makes in this frame: none when it cannot be used;
/// otherwise a click when it was just pressed, else a hover sound when the
/// pointer just came over it, else a release sound when it was just let go.
pub fn button_sound(active: bool, just_clicked: bool, just_hovered: bool, just_released: bool) -> (r: Option<SfxKind>)
    ensures
        r == (if !active {
            None
        } else if just_clicked {
            Some(SfxKind::UiButtonClick)
        } else if just_hovered {
            Some(SfxKind::UiButtonHover)
        } else if just_released {
            Some(SfxKind::UiButtonRelease)
        } else {
            None
        }),
{
    if !active {
        None
    } else if just_clicked {
        Some(SfxKind::UiButtonClick)
    } else if just_hovered {
        Some(SfxKind::UiButtonHover)
    } else if just_released {
        Some(SfxKind::UiButtonRelease)
    } else {
        None
    }
}

/// The texts of the info box for a button the pointer is over: for an item
/// its name, "Effect: ", its effect, "Side Effect: " and its side effect; for
/// a unit its name, "Food Cost: " and its cost in food; nothing for a button
/// without a use.
pub open spec fn button_info_of(kind: PlanningButtonKind) -> Seq<Seq<char>> {
    match kind {
        PlanningButtonKind::Item(i) => seq![
            item_name(i).push('\n'),
            "Effect: "@,
            item_positive_effect(i).push('\n'),
            "Side Effect: "@,
            item_side_effect(i),
        ],
        PlanningButtonKind::Unit(u) => seq![unit_name(u).push('\n'), "Food Cost: "@, decimal(unit_cost(u))],
        PlanningButtonKind::Noop => Seq::empty(),
    }
}

/// A text followed by a line break.
fn line_of(s: &str) -> (r: String)
    ensures
        r@ == s@.push('\n'),
{
    let mut v = chars_of(s);
    v.push('\n');
    string_from_chars(v)
}

/// A text as a `String`.
fn text_of(s: &str) -> (r: String)
    ensures
        r@ == s@,
{
    string_from_chars(chars_of(s))
}

/// The texts of the info box for a button (see `button_info_of`).
pub fn button_info(kind: PlanningButtonKind) -> (r: Vec<String>)
    ensures
        r@.map_values(|t: String| t@) == button_info_of(kind),
{
    let mut r: Vec<String> = Vec::new();
    match kind {
        PlanningButtonKind::Item(i) => {
            r.push(line_of(i.name()));
            r.push(text_of("Effect: "));
            r.push(line_of(i.positive_effect()));
            r.push(text_of("Side Effect: "));
            r.push(text_of(i.side_effect()));
        },
        PlanningButtonKind::Unit(u) => {
            r.push(line_of(u.name()));
            r.push(text_of("Food Cost: "));
            let cost = u.stats().cost;
            r.push(string_from_chars(decimal_chars(cost as u64)));
        },
        PlanningButtonKind::Noop => {},
    }
    assert(r@.map_values(|t: String| t@) =~= button_info_of(kind));
    r
}

/// The most bytes of the hint the info box shows.
pub const HINT_BYTES: usize = 999;

/// The texts of the info box for the hint button: while it is held, the
/// heading and the quest's hint wrapped and cut to its first 999 bytes; while
/// the pointer is only over it, the heading and how to see the hint; nothing
/// otherwise.
pub open spec fn hint_info_of(quest: Quest, held: bool, hovered: bool) -> Seq<Seq<char>> {
    if held {
        seq!["Battle Hint\n"@, typewriter_cut(quest_hint(quest.war_chef as int, quest.battle as int), HINT_BYTES as nat)]
    } else if hovered {
        seq!["Battle Hint\n"@, "Hold left mouse button to see hint"@]
    } else {
        Seq::empty()
    }
}

/// The texts of the info box for the hint button (see `hint_info_of`); the
/// hint shown is the wrapped hint cut to its first 999 bytes, which must fall
/// between two characters.
pub fn hint_info(quest: &Quest, held: bool, hovered: bool) -> (r: Vec<String>)
    requires
        cut_between_chars(quest_hint(quest.war_chef as int, quest.battle as int), HINT_BYTES as nat),
    ensures
        r@.map_values(|t: String| t@) == hint_info_of(*quest, held, hovered),
{
    let mut r: Vec<String> = Vec::new();
    if held {
        r.push(text_of("Battle Hint\n"));
        r.push(typewriter_text(quest.hint(), HINT_BYTES));
    } else if hovered {
        r.push(text_of("Battle Hint\n"));
        r.push(text_of("Hold left mouse button to see hint"));
    }
    assert(r@.map_values(|t: String| t@) =~= hint_info_of(*quest, held, hovered));
    r
}

/// The picture of a button: the pressed picture (14 further on) while it is
/// held down, the highlighted one (7 further on) while the pointer is over
/// it, and the plain one otherwise or when it cannot be used.
pub fn button_image(image_index: usize, clicked: bool, hovered: bool, active: bool) -> (r: usize)
    requires
        image_index + 14 <= usize::MAX,
    ensures
        r == (if clicked && active {
            image_index + 14
        } else if hovered && active {
            image_index + 7
        } else {
            image_index as int
        }),
{
    if clicked && active {
        image_index + 14
    } else if hovered && active {
        image_index + 7
    } else {
        image_index
    }
}

/// The state after feeding one unit of kind `k`: it moves from the available
/// army to the fed army, and its food cost is paid.
pub open spec fn fed_one(v: GameStateView, k: UnitKind) -> GameStateView {
    GameStateView {
        fed_army: with_count(v.fed_army, k, (v.fed_army.count(k) + 1) as usize),
        available_army: with_count(v.available_army, k, (v.available_army.count(k) - 1) as usize),
        food: (v.food - unit_cost(k)) as usize,
        ..v
    }
}

/// Whether a unit of kind `k` can be fed: one is available and the food
/// covers its cost.
pub open spec fn can_feed(v: GameStateView, k: UnitKind) -> bool {
    v.available_army.count(k) > 0 && v.food >= unit_cost(k)
}

impl GameState {
    /// Feeds one unit of kind `unit_kind` when one is available and the food
    /// covers it (see `fed_one`); says whether it did.
    pub fn feed_unit(&mut self, unit_kind: UnitKind) -> (r: bool)
        requires
            old(self).fed_army.count(unit_kind) < usize::MAX,
        ensures
            r == can_feed(old(self)@, unit_kind),
            r ==> final(self)@ == fed_one(old(self)@, unit_kind),
            !r ==> final(self)@ == old(self)@,
    {
        let unit_cost = unit_kind.stats().cost;
        if self.available_army.get_count(unit_kind) > 0 && self.food >= unit_cost {
            let fed = self.fed_army.get_count(unit_kind);
            self.fed_army.set_count(unit_kind, fed + 1);
            let available = self.available_army.get_count(unit_kind);
            self.available_army.set_count(unit_kind, available - 1);
            self.food = self.food - unit_cost;
            true
        } else {
            false
        }
    }

    /// Puts `item` into the pot: it is consumed in the coming battle, and its
    /// last occurrence leaves the inventory.
    pub fn use_item(&mut self, item: Item)
        requires
            old(self)@.inventory.len() > 0,
        ensures
            final(self)@ == (GameStateView {
                consumed_items: old(self)@.consumed_items.push(item),
                inventory: without_last(old(self)@.inventory, item),
                ..old(self)@
            }),
    {
        self.consumed_items.push(item);
        self.inventory.remove_last(item);
    }
}

/// The tutorial shown when planning the battle `battle` of the war chef
/// `war_chef`: the first four battles have one each.
pub open spec fn tutorial_for(war_chef: int, battle: int) -> Option<int> {
    if war_chef == 0 && 0 <= battle <= 2 {
        Some(battle)
    } else if war_chef == 1 && battle == 0 {
        Some(3)
    } else {
        None
    }
}

/// The tutorial shown when planning the coming battle, if any.
pub fn tutorial_index(quest: &Quest) -> (r: Option<usize>)
    ensures
        match r {
            Some(i) => tutorial_for(quest.war_chef as int, quest.battle as int) == Some(i as int),
            None => tutorial_for(quest.war_chef as int, quest.battle as int) is None,
        },
{
    match quest.war_chef {
        0 => match quest.battle {
            0 => Some(0),
            1 => Some(1),
            2 => Some(2),
            _ => None,
        },
        1 => match quest.battle {
            0 => Some(3),
            _ => None,
        },
        _ => None,
    }
}

/// The name of the tutorial dialogue `i`.
pub open spec fn tutorial_name(i: int) -> Seq<char> {
    if i == 0 {
        "Tutorial1"@
    } else if i == 1 {
        "Tutorial2"@
    } else if i == 2 {
        "Tutorial3"@
    } else {
        "Tutorial4"@
    }
}

/// The tutorial dialogue to play when planning starts, if any: the battle's
/// tutorial, when it was not shown yet. It counts as shown from then on.
pub fn planning_tutorial(quest: &Quest, persistent: &mut PersistentGameState) -> (r: Option<&'static str>)
    ensures
        match tutorial_for(quest.war_chef as int, quest.battle as int) {
            Some(i) => {
                &&& (match r {
                    Some(n) => old(persistent).show_tutorial@[i] && n@ == tutorial_name(i),
                    None => !old(persistent).show_tutorial@[i],
                })
                &&& final(persistent).show_tutorial@ == old(persistent).show_tutorial@.update(i, false)
            },
            None => r is None && *final(persistent) == *old(persistent),
        },
        final(persistent).show_rewind_screen_dialogue == old(persistent).show_rewind_screen_dialogue,
{
    match tutorial_index(quest) {
        Some(i) => {
            let shown = persistent.show_tutorial[i];
            persistent.show_tutorial[i] = false;
            assert(persistent.show_tutorial@ =~= old(persistent).show_tutorial@.update(i as int, false));
            if shown {
                let name = match i {
                    0 => "Tutorial1",
                    1 => "Tutorial2",
                    2 => "Tutorial3",
                    _ => "Tutorial4",
                };
                Some(name)
            } else {
                None
            }
        },
        None => None,
    }
}

/// The dialogue that holds back the start of a battle: in the first three
/// battles, a tutorial while the units it teaches about are still unfed (or,
/// in the third, an item is still unused); then, with no unit fed at all, a
/// reminder to feed some.
pub open spec fn start_blocker(v: GameStateView) -> Option<Seq<char>> {
    if v.quest.war_chef == 0 && v.quest.battle == 0 && v.available_army.peasants != 0 {
        Some("Tutorial1"@)
    } else if v.quest.war_chef == 0 && v.quest.battle == 1 && (v.available_army.peasants != 0
        || v.available_army.warriors != 0) {
        Some("Tutorial2"@)
    } else if v.quest.war_chef == 0 && v.quest.battle == 2 && (v.available_army.peasants != 0
        || v.available_army.warriors != 0 || v.inventory.len() != 0) {
        Some("Tutorial3"@)
    } else if v.fed_army.total() == 0 {
        Some("MustFeedUnits"@)
    } else {
        None
    }
}

/// The dialogue that holds back the start of a battle (see `start_blocker`).
pub fn tutorial_dialogue(game_state: &GameState) -> (r: Option<&'static str>)
    requires
        game_state.fed_army.total() <= usize::MAX,
    ensures
        match r {
            Some(n) => start_blocker(game_state@) == Some(n@),
            None => start_blocker(game_state@) is None,
        },
{
    if game_state.quest.war_chef == 0 {
        if game_state.quest.battle == 0 {
            if game_state.available_army.peasants != 0 {
                return Some("Tutorial1");
            }
        } else if game_state.quest.battle == 1 {
            if game_state.available_army.peasants != 0 || game_state.available_army.warriors != 0 {
                return Some("Tutorial2");
            }
        } else if game_state.quest.battle == 2 {
            if game_state.available_army.peasants != 0 || game_state.available_army.warriors != 0
                || !game_state.inventory.is_empty() {
                return Some("Tutorial3");
            }
        }
    }
    if game_state.fed_army.total_units() == 0 {
        Some("MustFeedUnits")
    } else {
        None
    }
}

impl PlanningState {
    /// The start button was pressed: the dialogue that holds the battle back
    /// is handed back to be played, or, with none, the battle is asked to
    /// start.
    pub fn confirm_start(&mut self, game_state: &GameState) -> (r: Option<&'static str>)
        requires
            game_state.fed_army.total() <= usize::MAX,
        ensures
            match r {
                Some(n) => start_blocker(game_state@) == Some(n@) && *final(self) == *old(self),
                None => start_blocker(game_state@) is None && *final(self) == (PlanningState {
                    start: true,
                    ..*old(self)
                }),
            },
    {
        match tutorial_dialogue(game_state) {
            Some(n) => Some(n),
            None => {
                self.start = true;
                None
            },
        }
    }
}

/// The items in the order they first occur, each once.
pub open spec fn distinct_items(s: Seq<Item>) -> Seq<Item>
    decreases s.len(),
{
    if s.len() == 0 {
        Seq::empty()
    } else {
        let d = distinct_items(s.drop_last());
        if d.contains(s.last()) {
            d
        } else {
            d.push(s.last())
        }
    }
}

/// The items shown in the planning screen's slots: each item of the
/// inventory once, in the order they were first gained.
pub fn planning_items(game_state: &GameState) -> (r: Vec<Item>)
    ensures
        r@ == distinct_items(game_state@.inventory),
{
    let items = game_state.inventory.items();
    let mut r: Vec<Item> = Vec::new();
    let mut i: usize = 0;
    while i < items.len()
        invariant
            i <= items@.len(),
            items@ == game_state@.inventory,
            r@ == distinct_items(items@.take(i as int)),
        decreases items.len() - i,
    {
        let item = items[i];
        assert(items@.take(i + 1).drop_last() =~= items@.take(i as int));
        let mut found = false;
        let mut j: usize = 0;
        while j < r.len()
            invariant
                j <= r@.len(),
                found == exists|m: int| 0 <= m < j && r@[m] == item,
            decreases r.len() - j,
        {
            if r[j] == item {
                found = true;
            }
            j = j + 1;
        }
        assert(found == r@.contains(item));
        if !found {
            r.push(item);
        }
        i = i + 1;
    }
    assert(items@.take(i as int) =~= items@);
    r
}

/// Feeding a unit moves it from the available army to the fed army: every
/// kind's available and fed units together stay as many as before, and the
/// food goes down by exactly the unit's cost.
pub proof fn law_feeding_keeps_units(v: GameStateView, k: UnitKind, other: UnitKind)
    requires
        can_feed(v, k),
        v.fed_army.count(k) < usize::MAX,
    ensures
        fed_one(v, k).available_army.count(other) + fed_one(v, k).fed_army.count(other) == v.available_army.count(
            other,
        ) + v.fed_army.count(other),
        fed_one(v, k).food + unit_cost(k) == v.food,
{
}

} // verus!
