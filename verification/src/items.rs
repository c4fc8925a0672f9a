use vstd::prelude::*;

use crate::text::{lemma_no_mention, mentions};

verus! {

/// The seven spices that can be fed to the army before a battle.
#[derive(Clone, Copy, Debug, PartialEq, Eq, Hash, Structural)]
pub enum Item {
    CracklingMoss,
    SquirtBlopBerries,
    FiremanderSalts,
    AxeShrooms,
    BogHardWeeds,
    CeleryQuartz,
    FrostyWebStrands,
}

/// The modifiers a battle can run under.
#[derive(Clone, Copy, Debug, PartialEq, Eq, Hash, Structural)]
pub enum BattleModifier {
    ExtraDefense,
    ExtraAttack,
    QuickAttack,
    ExtraSpeed,
    Fire,
    Ice,
    Wet,
    FriendlyFire,
    Cowardly,
    Sickness,
    Explosive,
    Combustion,
    Blindness,
    Slowness,
}

/// The position of an item in the declaration order.
pub open spec fn item_index(item: Item) -> nat {
    match item {
        Item::CracklingMoss => 0,
        Item::SquirtBlopBerries => 1,
        Item::FiremanderSalts => 2,
        Item::AxeShrooms => 3,
        Item::BogHardWeeds => 4,
        Item::CeleryQuartz => 5,
        Item::FrostyWebStrands => 6,
    }
}

/// The two modifiers an item brings into battle: its effect, then its side effect.
pub open spec fn item_modifiers(item: Item) -> Seq<BattleModifier> {
    match item {
        Item::CracklingMoss => seq![BattleModifier::QuickAttack, BattleModifier::Cowardly],
        Item::SquirtBlopBerries => seq![BattleModifier::Wet, BattleModifier::Slowness],
        Item::FiremanderSalts => seq![BattleModifier::Fire, BattleModifier::Combustion],
        Item::AxeShrooms => seq![BattleModifier::ExtraAttack, BattleModifier::FriendlyFire],
        Item::BogHardWeeds => seq![BattleModifier::ExtraDefense, BattleModifier::Sickness],
        Item::CeleryQuartz => seq![BattleModifier::ExtraSpeed, BattleModifier::Explosive],
        Item::FrostyWebStrands => seq![BattleModifier::Ice, BattleModifier::Blindness],
    }
}

/// The display name of an item.
pub open spec fn item_name(item: Item) -> Seq<char> {
    match item {
        Item::CracklingMoss => "Crackling Moss"@,
        Item::SquirtBlopBerries => "Squirt Blop-Berries"@,
        Item::FiremanderSalts => "Firemander Salts"@,
        Item::AxeShrooms => "Axe Shrooms"@,
        Item::BogHardWeeds => "Bog Hard-Weeds"@,
        Item::CeleryQuartz => "Celery Quartz"@,
        Item::FrostyWebStrands => "Frosty Web-Strands"@,
    }
}

/// The name of the skin that shows an item in the cauldron.
pub open spec fn item_skin_name(item: Item) -> Seq<char> {
    match item {
        Item::CracklingMoss => "CracklingMoss"@,
        Item::SquirtBlopBerries => "SquirtBlopBerries"@,
        Item::FiremanderSalts => "FiremanderSalts"@,
        Item::AxeShrooms => "AxeShrooms"@,
        Item::BogHardWeeds => "BogHardWeeds"@,
        Item::CeleryQuartz => "CeleryQuartz"@,
        Item::FrostyWebStrands => "FrostyWebStrands"@,
    }
}

/// The text that describes an item's effect.
pub open spec fn item_positive_effect(item: Item) -> Seq<char> {
    match item {
        Item::CracklingMoss => "Attack more quickly."@,
        Item::SquirtBlopBerries => "Become wet and resist fire."@,
        Item::FiremanderSalts => "Fire damage burns non-armored enemies."@,
        Item::AxeShrooms => "All attacks deal more damage."@,
        Item::BogHardWeeds => "Increase defense."@,
        Item::CeleryQuartz => "Increase movement speed."@,
        Item::FrostyWebStrands => "Ice damage slows enemies and is effective\nagainst wet enemies."@,
    }
}

/// The text that describes an item's side effect.
pub open spec fn item_side_effect(item: Item) -> Seq<char> {
    match item {
        Item::CracklingMoss => "Units may run from battle."@,
        Item::SquirtBlopBerries => "Units become slow."@,
        Item::FiremanderSalts => "Units may spontaneously combust."@,
        Item::AxeShrooms => "Units may attack friendlies."@,
        Item::BogHardWeeds => "Some units become sick and unusable \nnext battle."@,
        Item::CeleryQuartz => "Units may explode."@,
        Item::FrostyWebStrands => "Units become blind and attack\nrandomly."@,
    }
}

impl Item {
    /// The modifiers this item adds to the friendly side of a battle.
    pub fn modifiers(&self) -> (r: Vec<BattleModifier>)
        ensures
            r@ == item_modifiers(*self),
    {
        match self {
            Item::CracklingMoss => vec![BattleModifier::QuickAttack, BattleModifier::Cowardly],
            Item::SquirtBlopBerries => vec![BattleModifier::Wet, BattleModifier::Slowness],
            Item::FiremanderSalts => vec![BattleModifier::Fire, BattleModifier::Combustion],
            Item::AxeShrooms => vec![BattleModifier::ExtraAttack, BattleModifier::FriendlyFire],
            Item::BogHardWeeds => vec![BattleModifier::ExtraDefense, BattleModifier::Sickness],
            Item::CeleryQuartz => vec![BattleModifier::ExtraSpeed, BattleModifier::Explosive],
            Item::FrostyWebStrands => vec![BattleModifier::Ice, BattleModifier::Blindness],
        }
    }

    /// The display name.
    pub fn name(&self) -> (r: &'static str)
        ensures
            r@ == item_name(*self),
    {
        match self {
            Item::CracklingMoss => "Crackling Moss",
            Item::SquirtBlopBerries => "Squirt Blop-Berries",
            Item::FiremanderSalts => "Firemander Salts",
            Item::AxeShrooms => "Axe Shrooms",
            Item::BogHardWeeds => "Bog Hard-Weeds",
            Item::CeleryQuartz => "Celery Quartz",
            Item::FrostyWebStrands => "Frosty Web-Strands",
        }
    }

    /// The skin name used to show the item.
    pub fn skin_name(&self) -> (r: &'static str)
        ensures
            r@ == item_skin_name(*self),
    {
        match self {
            Item::CracklingMoss => "CracklingMoss",
            Item::SquirtBlopBerries => "SquirtBlopBerries",
            Item::FiremanderSalts => "FiremanderSalts",
            Item::AxeShrooms => "AxeShrooms",
            Item::BogHardWeeds => "BogHardWeeds",
            Item::CeleryQuartz => "CeleryQuartz",
            Item::FrostyWebStrands => "FrostyWebStrands",
        }
    }

    /// The position in the declaration order, also the item's sprite index.
    pub fn index(&self) -> (r: usize)
        ensures
            r == item_index(*self),
    {
        match self {
            Item::CracklingMoss => 0,
            Item::SquirtBlopBerries => 1,
            Item::FiremanderSalts => 2,
            Item::AxeShrooms => 3,
            Item::BogHardWeeds => 4,
            Item::CeleryQuartz => 5,
            Item::FrostyWebStrands => 6,
        }
    }

    /// The text of the item's effect.
    pub fn positive_effect(&self) -> (r: &'static str)
        ensures
            r@ == item_positive_effect(*self),
    {
        match self {
            Item::CracklingMoss => "Attack more quickly.",
            Item::SquirtBlopBerries => "Become wet and resist fire.",
            Item::FiremanderSalts => "Fire damage burns non-armored enemies.",
            Item::AxeShrooms => "All attacks deal more damage.",
            Item::BogHardWeeds => "Increase defense.",
            Item::CeleryQuartz => "Increase movement speed.",
            Item::FrostyWebStrands => "Ice damage slows enemies and is effective\nagainst wet enemies.",
        }
    }

    /// The text of the item's side effect.
    pub fn side_effect(&self) -> (r: &'static str)
        ensures
            r@ == item_side_effect(*self),
    {
        match self {
            Item::CracklingMoss => "Units may run from battle.",
            Item::SquirtBlopBerries => "Units become slow.",
            Item::FiremanderSalts => "Units may spontaneously combust.",
            Item::AxeShrooms => "Units may attack friendlies.",
            Item::BogHardWeeds => "Some units become sick and unusable \nnext battle.",
            Item::CeleryQuartz => "Units may explode.",
            Item::FrostyWebStrands => "Units become blind and attack\nrandomly.",
        }
    }
}

/// The item at position `i` of the declaration order.
pub open spec fn item_at(i: int) -> Item {
    if i == 0 {
        Item::CracklingMoss
    } else if i == 1 {
        Item::SquirtBlopBerries
    } else if i == 2 {
        Item::FiremanderSalts
    } else if i == 3 {
        Item::AxeShrooms
    } else if i == 4 {
        Item::BogHardWeeds
    } else if i == 5 {
        Item::CeleryQuartz
    } else {
        Item::FrostyWebStrands
    }
}

/// Every item, in declaration order.
pub fn all_items() -> (r: Vec<Item>)
    ensures
        r.len() == 7,
        forall|i: int| 0 <= i < 7 ==> item_index(#[trigger] r@[i]) == i,
{
    vec![
        Item::CracklingMoss,
        Item::SquirtBlopBerries,
        Item::FiremanderSalts,
        Item::AxeShrooms,
        Item::BogHardWeeds,
        Item::CeleryQuartz,
        Item::FrostyWebStrands,
    ]
}


/// The position of a modifier in the declaration order.
pub open spec fn modifier_index(m: BattleModifier) -> nat {
    match m {
        BattleModifier::ExtraDefense => 0,
        BattleModifier::ExtraAttack => 1,
        BattleModifier::QuickAttack => 2,
        BattleModifier::ExtraSpeed => 3,
        BattleModifier::Fire => 4,
        BattleModifier::Ice => 5,
        BattleModifier::Wet => 6,
        BattleModifier::FriendlyFire => 7,
        BattleModifier::Cowardly => 8,
        BattleModifier::Sickness => 9,
        BattleModifier::Explosive => 10,
        BattleModifier::Combustion => 11,
        BattleModifier::Blindness => 12,
        BattleModifier::Slowness => 13,
    }
}

/// The display name of a modifier.
pub open spec fn modifier_name(m: BattleModifier) -> Seq<char> {
    match m {
        BattleModifier::ExtraDefense => "Extra Defense"@,
        BattleModifier::ExtraAttack => "Extra Attack"@,
        BattleModifier::QuickAttack => "Quick Attack"@,
        BattleModifier::ExtraSpeed => "Extra Speed"@,
        BattleModifier::Fire => "Fire"@,
        BattleModifier::Ice => "Ice"@,
        BattleModifier::Wet => "Wet"@,
        BattleModifier::FriendlyFire => "Friendly Fire"@,
        BattleModifier::Cowardly => "Cowardly"@,
        BattleModifier::Sickness => "Sickness"@,
        BattleModifier::Explosive => "Explosive"@,
        BattleModifier::Combustion => "Combustion"@,
        BattleModifier::Blindness => "Blindness"@,
        BattleModifier::Slowness => "Slowness"@,
    }
}

impl BattleModifier {
    /// The position in the declaration order.
    pub fn index(&self) -> (r: usize)
        ensures
            r == modifier_index(*self),
            r < 14,
    {
        match self {
            BattleModifier::ExtraDefense => 0,
            BattleModifier::ExtraAttack => 1,
            BattleModifier::QuickAttack => 2,
            BattleModifier::ExtraSpeed => 3,
            BattleModifier::Fire => 4,
            BattleModifier::Ice => 5,
            BattleModifier::Wet => 6,
            BattleModifier::FriendlyFire => 7,
            BattleModifier::Cowardly => 8,
            BattleModifier::Sickness => 9,
            BattleModifier::Explosive => 10,
            BattleModifier::Combustion => 11,
            BattleModifier::Blindness => 12,
            BattleModifier::Slowness => 13,
        }
    }

    /// The display name.
    pub fn name(&self) -> (r: &'static str)
        ensures
            r@ == modifier_name(*self),
    {
        match self {
            BattleModifier::ExtraDefense => "Extra Defense",
            BattleModifier::ExtraAttack => "Extra Attack",
            BattleModifier::QuickAttack => "Quick Attack",
            BattleModifier::ExtraSpeed => "Extra Speed",
            BattleModifier::Fire => "Fire",
            BattleModifier::Ice => "Ice",
            BattleModifier::Wet => "Wet",
            BattleModifier::FriendlyFire => "Friendly Fire",
            BattleModifier::Cowardly => "Cowardly",
            BattleModifier::Sickness => "Sickness",
            BattleModifier::Explosive => "Explosive",
            BattleModifier::Combustion => "Combustion",
            BattleModifier::Blindness => "Blindness",
            BattleModifier::Slowness => "Slowness",
        }
    }
}

/// The set of modifiers a side of a battle runs under: one flag per modifier.
#[derive(Clone, Copy, Debug)]
pub struct BattleModifiers {
    pub active: [bool; 14],
}

impl BattleModifiers {
    /// Whether `m` is in the set.
    pub open spec fn has(self, m: BattleModifier) -> bool {
        self.active@[modifier_index(m) as int]
    }

    /// The empty set (every flag false), which is the default.
    pub fn new() -> (r: BattleModifiers)
        ensures
            forall|m: BattleModifier| !r.has(m),
    {
        BattleModifiers { active: [false; 14] }
    }

    /// Whether `m` is in the set.
    pub fn get(&self, m: BattleModifier) -> (r: bool)
        ensures
            r == self.has(m),
    {
        self.active[m.index()]
    }

    /// Puts `m` in the set or takes it out.
    pub fn set(&mut self, m: BattleModifier, value: bool)
        ensures
            final(self).has(m) == value,
            forall|o: BattleModifier| o != m ==> final(self).has(o) == old(self).has(o),
    {
        let i = m.index();
        self.active[i] = value;
    }
}


/// How many times `x` occurs in `s`.
pub open spec fn count_of(s: Seq<Item>, x: Item) -> nat
    decreases s.len(),
{
    if s.len() == 0 {
        0
    } else {
        count_of(s.drop_last(), x) + if s.last() == x { 1nat } else { 0nat }
    }
}

/// The position of the last occurrence of `x` in `s`, or -1 when there is none.
pub open spec fn last_position(s: Seq<Item>, x: Item) -> int
    decreases s.len(),
{
    if s.len() == 0 {
        -1
    } else if s.last() == x {
        s.len() - 1
    } else {
        last_position(s.drop_last(), x)
    }
}

/// `s` with its last occurrence of `x` taken out, or `s` itself when `x` does not occur.
pub open spec fn without_last(s: Seq<Item>, x: Item) -> Seq<Item> {
    if last_position(s, x) >= 0 {
        s.remove(last_position(s, x))
    } else {
        s
    }
}

/// The last occurrence is a position holding `x` with no `x` after it; -1 means no `x` at all.
pub proof fn lemma_last_position(s: Seq<Item>, x: Item)
    ensures
        -1 <= last_position(s, x) < s.len(),
        last_position(s, x) >= 0 ==> s[last_position(s, x)] == x,
        forall|j: int| last_position(s, x) < j < s.len() ==> s[j] != x,
    decreases s.len(),
{
    if s.len() > 0 && s.last() != x {
        lemma_last_position(s.drop_last(), x);
        assert forall|j: int| last_position(s, x) < j < s.len() implies s[j] != x by {
            if j < s.len() - 1 {
                assert(s[j] == s.drop_last()[j]);
            }
        }
    }
}

/// Taking one element out lowers the count of that element by one and no other count.
pub proof fn lemma_count_remove(s: Seq<Item>, i: int, x: Item)
    requires
        0 <= i < s.len(),
    ensures
        count_of(s.remove(i), x) + (if s[i] == x { 1nat } else { 0nat }) == count_of(s, x),
    decreases s.len(),
{
    if i == s.len() - 1 {
        assert(s.remove(i) =~= s.drop_last());
    } else {
        lemma_count_remove(s.drop_last(), i, x);
        assert(s.remove(i) =~= s.drop_last().remove(i).push(s.last()));
        assert(s.remove(i).drop_last() =~= s.drop_last().remove(i));
    }
}

/// A copy of a list of items.
pub fn copy_items(v: &Vec<Item>) -> (r: Vec<Item>)
    ensures
        r@ == v@,
{
    let mut r: Vec<Item> = Vec::new();
    let mut i: usize = 0;
    while i < v.len()
        invariant
            i <= v@.len(),
            r@ == v@.take(i as int),
        decreases v.len() - i,
    {
        r.push(v[i]);
        assert(v@.take(i + 1) =~= v@.take(i as int).push(v@[i as int]));
        i = i + 1;
    }
    assert(v@.take(i as int) =~= v@);
    r
}

/// The spices the player owns, in the order they were gained.
#[derive(Clone, Debug)]
pub struct Inventory {
    items: Vec<Item>,
}

impl View for Inventory {
    type V = Seq<Item>;

    closed spec fn view(&self) -> Seq<Item> {
        self.items@
    }
}

impl Default for Inventory {
    fn default() -> (r: Inventory)
        ensures
            r@ == Seq::<Item>::empty(),
    {
        Inventory { items: Vec::new() }
    }
}

impl Inventory {
    /// Whether no item is held.
    pub fn is_empty(&self) -> (r: bool)
        ensures
            r == (self@.len() == 0),
    {
        self.items.len() == 0
    }

    /// Adds an item at the end.
    pub fn add(&mut self, item: Item)
        ensures
            final(self)@ == old(self)@.push(item),
    {
        self.items.push(item);
    }

    /// Takes out the item at `index`.
    pub fn remove(&mut self, index: usize)
        requires
            index < old(self)@.len(),
        ensures
            final(self)@ == old(self)@.remove(index as int),
    {
        self.items.remove(index);
    }

    /// Takes out the last occurrence of `item`; leaves the inventory as it is
    /// when the item is not held.
    pub fn remove_last(&mut self, item: Item)
        requires
            old(self)@.len() > 0,
        ensures
            final(self)@ == without_last(old(self)@, item),
    {
        let ghost s = self.items@;
        proof {
            lemma_last_position(s, item);
        }
        let mut i: usize = self.items.len() - 1;
        loop
            invariant
                self.items@ == s,
                s == old(self)@,
                i < s.len(),
                forall|j: int| i < j < s.len() ==> s[j] != item,
                last_position(s, item) <= i,
                -1 <= last_position(s, item) < s.len(),
                last_position(s, item) >= 0 ==> s[last_position(s, item)] == item,
                forall|j: int| last_position(s, item) < j < s.len() ==> s[j] != item,
            decreases i,
        {
            if self.items[i] == item {
                assert(last_position(s, item) == i);
                self.remove(i);
                return;
            } else if i == 0 {
                assert(last_position(s, item) == -1);
                return;
            } else {
                i = i - 1;
            }
        }
    }

    /// A copy of the inventory.
    pub fn duplicate(&self) -> (r: Inventory)
        ensures
            r@ == self@,
    {
        Inventory { items: copy_items(&self.items) }
    }

    /// The held items, in order.
    pub fn items(&self) -> (r: &Vec<Item>)
        ensures
            r@ == self@,
    {
        &self.items
    }

    /// How many of `item` are held.
    pub fn count(&self, item: Item) -> (r: usize)
        ensures
            r == count_of(self@, item),
    {
        let mut c: usize = 0;
        let mut i: usize = 0;
        while i < self.items.len()
            invariant
                i <= self.items@.len(),
                c == count_of(self.items@.take(i as int), item),
                c <= i,
            decreases self.items@.len() - i,
        {
            assert(self.items@.take(i + 1).drop_last() =~= self.items@.take(i as int));
            if self.items[i] == item {
                c = c + 1;
            }
            i = i + 1;
        }
        assert(self.items@.take(i as int) =~= self.items@);
        c
    }
}

/// Adding an item and then removing the last occurrence of that item gives
/// back the inventory as it was.
pub proof fn law_add_then_remove_last(s: Seq<Item>, item: Item)
    ensures
        without_last(s.push(item), item) == s,
{
    assert(s.push(item).drop_last() =~= s);
    assert(s.push(item).remove(s.len() as int) =~= s);
}

/// Removing the last occurrence of a held item lowers its count by exactly one,
/// and leaves every other count as it was.
pub proof fn law_remove_last_count(s: Seq<Item>, item: Item, other: Item)
    ensures
        count_of(s, item) > 0 ==> count_of(without_last(s, item), item) + 1 == count_of(s, item),
        other != item ==> count_of(without_last(s, item), other) == count_of(s, other),
{
    lemma_last_position(s, item);
    if last_position(s, item) >= 0 {
        lemma_count_remove(s, last_position(s, item), item);
        lemma_count_remove(s, last_position(s, item), other);
    } else {
        lemma_count_zero(s, item);
    }
}

/// An item that occurs nowhere has count zero.
proof fn lemma_count_zero(s: Seq<Item>, x: Item)
    requires
        forall|j: int| 0 <= j < s.len() ==> s[j] != x,
    ensures
        count_of(s, x) == 0,
    decreases s.len(),
{
    if s.len() > 0 {
        lemma_count_zero(s.drop_last(), x);
    }
}

/// Adding an item raises its count by one and leaves every other count as it was.
pub proof fn law_add_count(s: Seq<Item>, item: Item, other: Item)
    ensures
        count_of(s.push(item), item) == count_of(s, item) + 1,
        other != item ==> count_of(s.push(item), other) == count_of(s, other),
{
    assert(s.push(item).drop_last() =~= s);
}

/// `s` with its spaces and hyphens taken out.
pub open spec fn without_spaces_and_hyphens(s: Seq<char>) -> Seq<char>
    decreases s.len(),
{
    if s.len() == 0 {
        s
    } else {
        let r = without_spaces_and_hyphens(s.drop_last());
        if s.last() == ' ' || s.last() == '-' {
            r
        } else {
            r.push(s.last())
        }
    }
}

/// Taking spaces and hyphens out of two texts one after the other is taking
/// them out of each.
pub proof fn lemma_without_concat(a: Seq<char>, b: Seq<char>)
    ensures
        without_spaces_and_hyphens(a + b) == without_spaces_and_hyphens(a) + without_spaces_and_hyphens(b),
    decreases b.len(),
{
    if b.len() == 0 {
        assert(a + b =~= a);
        assert(without_spaces_and_hyphens(a) + without_spaces_and_hyphens(b) =~= without_spaces_and_hyphens(a));
    } else {
        lemma_without_concat(a, b.drop_last());
        assert((a + b).drop_last() =~= a + b.drop_last());
        assert(without_spaces_and_hyphens(a) + without_spaces_and_hyphens(b.drop_last()).push(b.last()) =~= (
        without_spaces_and_hyphens(a) + without_spaces_and_hyphens(b.drop_last())).push(b.last()));
    }
}

/// A text with no space or hyphen keeps all its characters.
pub proof fn lemma_without_unchanged(s: Seq<char>)
    requires
        forall|j: int| 0 <= j < s.len() ==> s[j] != ' ' && s[j] != '-',
    ensures
        without_spaces_and_hyphens(s) == s,
    decreases s.len(),
{
    if s.len() > 0 {
        lemma_without_unchanged(s.drop_last());
        assert(s.drop_last().push(s.last()) =~= s);
    }
}

/// Taking spaces and hyphens out of a word without any, a space or hyphen,
/// and a rest leaves the word followed by the rest taken out in turn.
proof fn lemma_without_joined(w1: Seq<char>, c1: char, w2: Seq<char>)
    requires
        c1 == ' ' || c1 == '-',
        forall|j: int| 0 <= j < w1.len() ==> w1[j] != ' ' && w1[j] != '-',
    ensures
        without_spaces_and_hyphens(w1 + seq![c1] + w2) == w1 + without_spaces_and_hyphens(w2),
{
    lemma_without_concat(w1 + seq![c1], w2);
    lemma_without_concat(w1, seq![c1]);
    lemma_without_unchanged(w1);
    assert(seq![c1].drop_last() =~= Seq::<char>::empty());
    assert(seq![c1].last() == c1);
    assert(without_spaces_and_hyphens(Seq::<char>::empty()) == Seq::<char>::empty());
    assert(without_spaces_and_hyphens(seq![c1]) =~= Seq::<char>::empty());
    assert(w1 + Seq::<char>::empty() =~= w1);
}

/// An item's skin name is its display name with the spaces and hyphens
/// taken out (for example "Bog Hard-Weeds" shows as "BogHardWeeds").
pub proof fn law_skin_name_from_name(item: Item)
    ensures
        item_skin_name(item) == without_spaces_and_hyphens(item_name(item)),
{
    match item {
        Item::CracklingMoss => {
            reveal_strlit("Crackling Moss");
            reveal_strlit("CracklingMoss");
            reveal_strlit("Crackling");
            reveal_strlit("Moss");
            assert("Crackling Moss"@ =~= "Crackling"@ + seq![' '] + "Moss"@);
            assert("CracklingMoss"@ =~= "Crackling"@ + "Moss"@);
            lemma_without_joined("Crackling"@, ' ', "Moss"@);
            lemma_without_unchanged("Moss"@);
        },
        Item::SquirtBlopBerries => {
            reveal_strlit("Squirt Blop-Berries");
            reveal_strlit("SquirtBlopBerries");
            reveal_strlit("Squirt");
            reveal_strlit("Blop");
            reveal_strlit("Berries");
            assert("Squirt Blop-Berries"@ =~= "Squirt"@ + seq![' '] + ("Blop"@ + seq!['-'] + "Berries"@));
            assert("SquirtBlopBerries"@ =~= "Squirt"@ + ("Blop"@ + "Berries"@));
            lemma_without_joined("Blop"@, '-', "Berries"@);
            lemma_without_unchanged("Berries"@);
            lemma_without_joined("Squirt"@, ' ', "Blop"@ + seq!['-'] + "Berries"@);
        },
        Item::FiremanderSalts => {
            reveal_strlit("Firemander Salts");
            reveal_strlit("FiremanderSalts");
            reveal_strlit("Firemander");
            reveal_strlit("Salts");
            assert("Firemander Salts"@ =~= "Firemander"@ + seq![' '] + "Salts"@);
            assert("FiremanderSalts"@ =~= "Firemander"@ + "Salts"@);
            lemma_without_joined("Firemander"@, ' ', "Salts"@);
            lemma_without_unchanged("Salts"@);
        },
        Item::AxeShrooms => {
            reveal_strlit("Axe Shrooms");
            reveal_strlit("AxeShrooms");
            reveal_strlit("Axe");
            reveal_strlit("Shrooms");
            assert("Axe Shrooms"@ =~= "Axe"@ + seq![' '] + "Shrooms"@);
            assert("AxeShrooms"@ =~= "Axe"@ + "Shrooms"@);
            lemma_without_joined("Axe"@, ' ', "Shrooms"@);
            lemma_without_unchanged("Shrooms"@);
        },
        Item::BogHardWeeds => {
            reveal_strlit("Bog Hard-Weeds");
            reveal_strlit("BogHardWeeds");
            reveal_strlit("Bog");
            reveal_strlit("Hard");
            reveal_strlit("Weeds");
            assert("Bog Hard-Weeds"@ =~= "Bog"@ + seq![' '] + ("Hard"@ + seq!['-'] + "Weeds"@));
            assert("BogHardWeeds"@ =~= "Bog"@ + ("Hard"@ + "Weeds"@));
            lemma_without_joined("Hard"@, '-', "Weeds"@);
            lemma_without_unchanged("Weeds"@);
            lemma_without_joined("Bog"@, ' ', "Hard"@ + seq!['-'] + "Weeds"@);
        },
        Item::CeleryQuartz => {
            reveal_strlit("Celery Quartz");
            reveal_strlit("CeleryQuartz");
            reveal_strlit("Celery");
            reveal_strlit("Quartz");
            assert("Celery Quartz"@ =~= "Celery"@ + seq![' '] + "Quartz"@);
            assert("CeleryQuartz"@ =~= "Celery"@ + "Quartz"@);
            lemma_without_joined("Celery"@, ' ', "Quartz"@);
            lemma_without_unchanged("Quartz"@);
        },
        Item::FrostyWebStrands => {
            reveal_strlit("Frosty Web-Strands");
            reveal_strlit("FrostyWebStrands");
            reveal_strlit("Frosty");
            reveal_strlit("Web");
            reveal_strlit("Strands");
            assert("Frosty Web-Strands"@ =~= "Frosty"@ + seq![' '] + ("Web"@ + seq!['-'] + "Strands"@));
            assert("FrostyWebStrands"@ =~= "Frosty"@ + ("Web"@ + "Strands"@));
            lemma_without_joined("Web"@, '-', "Strands"@);
            lemma_without_unchanged("Strands"@);
            lemma_without_joined("Frosty"@, ' ', "Web"@ + seq!['-'] + "Strands"@);
        },
    }
}

/// The counts of all seven items added up.
pub open spec fn all_counts(s: Seq<Item>) -> nat {
    count_of(s, Item::CracklingMoss) + count_of(s, Item::SquirtBlopBerries) + count_of(s, Item::FiremanderSalts)
        + count_of(s, Item::AxeShrooms) + count_of(s, Item::BogHardWeeds) + count_of(s, Item::CeleryQuartz)
        + count_of(s, Item::FrostyWebStrands)
}

/// The counts of the items add up to the number of items held, and the
/// inventory is empty exactly when every count is zero.
pub proof fn law_counts_add_up(s: Seq<Item>)
    ensures
        all_counts(s) == s.len(),
        s.len() == 0 <==> forall|i: Item| count_of(s, i) == 0,
    decreases s.len(),
{
    if s.len() > 0 {
        law_counts_add_up(s.drop_last());
        assert(count_of(s, s.last()) > 0);
    }
}

/// Whether a modifier helps the side that fights under it.
pub open spec fn helps(m: BattleModifier) -> bool {
    m == BattleModifier::ExtraDefense || m == BattleModifier::ExtraAttack || m == BattleModifier::QuickAttack
        || m == BattleModifier::ExtraSpeed || m == BattleModifier::Fire || m == BattleModifier::Ice
        || m == BattleModifier::Wet
}

/// Every item brings two different modifiers, a helpful effect and then a
/// harmful side effect, and two different items never share an effect or a
/// side effect; so the seven side effects are the seven harmful modifiers.
pub proof fn law_item_effect_then_side_effect(item: Item, other: Item, m: BattleModifier)
    ensures
        item_modifiers(item).len() == 2,
        item_modifiers(item)[0] != item_modifiers(item)[1],
        helps(item_modifiers(item)[0]),
        !helps(item_modifiers(item)[1]),
        item != other ==> item_modifiers(item)[0] != item_modifiers(other)[0],
        item != other ==> item_modifiers(item)[1] != item_modifiers(other)[1],
        !helps(m) ==> exists|i: Item| item_modifiers(i)[1] == m,
{
    if !helps(m) {
        match m {
            BattleModifier::Cowardly => assert(item_modifiers(Item::CracklingMoss)[1] == m),
            BattleModifier::Slowness => assert(item_modifiers(Item::SquirtBlopBerries)[1] == m),
            BattleModifier::Combustion => assert(item_modifiers(Item::FiremanderSalts)[1] == m),
            BattleModifier::FriendlyFire => assert(item_modifiers(Item::AxeShrooms)[1] == m),
            BattleModifier::Sickness => assert(item_modifiers(Item::BogHardWeeds)[1] == m),
            BattleModifier::Explosive => assert(item_modifiers(Item::CeleryQuartz)[1] == m),
            BattleModifier::Blindness => assert(item_modifiers(Item::FrostyWebStrands)[1] == m),
            _ => {},
        }
    }
}

/// The side effect an item brings is the one its description warns of:
/// running from battle, slowness, combustion, attacking friendlies,
/// sickness, exploding or blindness.
pub proof fn law_side_effect_as_described(item: Item)
    ensures
        mentions(item_side_effect(item), "run from"@) ==> item_modifiers(item)[1] == BattleModifier::Cowardly,
        mentions(item_side_effect(item), "slow"@) ==> item_modifiers(item)[1] == BattleModifier::Slowness,
        mentions(item_side_effect(item), "combust"@) ==> item_modifiers(item)[1] == BattleModifier::Combustion,
        mentions(item_side_effect(item), "friendlies"@) ==> item_modifiers(item)[1] == BattleModifier::FriendlyFire,
        mentions(item_side_effect(item), "sick"@) ==> item_modifiers(item)[1] == BattleModifier::Sickness,
        mentions(item_side_effect(item), "explode"@) ==> item_modifiers(item)[1] == BattleModifier::Explosive,
        mentions(item_side_effect(item), "blind"@) ==> item_modifiers(item)[1] == BattleModifier::Blindness,
{
    reveal_strlit("run from");
    reveal_strlit("slow");
    reveal_strlit("combust");
    reveal_strlit("friendlies");
    reveal_strlit("sick");
    reveal_strlit("explode");
    reveal_strlit("blind");
    match item {
        Item::CracklingMoss => {
            reveal_strlit("Units may run from battle.");
            lemma_no_mention(item_side_effect(item), "slow"@);
            lemma_no_mention(item_side_effect(item), "combust"@);
            lemma_no_mention(item_side_effect(item), "friendlies"@);
            lemma_no_mention(item_side_effect(item), "sick"@);
            lemma_no_mention(item_side_effect(item), "explode"@);
            lemma_no_mention(item_side_effect(item), "blind"@);
        },
        Item::SquirtBlopBerries => {
            reveal_strlit("Units become slow.");
            lemma_no_mention(item_side_effect(item), "run from"@);
            lemma_no_mention(item_side_effect(item), "combust"@);
            lemma_no_mention(item_side_effect(item), "friendlies"@);
            lemma_no_mention(item_side_effect(item), "sick"@);
            lemma_no_mention(item_side_effect(item), "explode"@);
            lemma_no_mention(item_side_effect(item), "blind"@);
        },
        Item::FiremanderSalts => {
            reveal_strlit("Units may spontaneously combust.");
            lemma_no_mention(item_side_effect(item), "run from"@);
            lemma_no_mention(item_side_effect(item), "slow"@);
            lemma_no_mention(item_side_effect(item), "friendlies"@);
            lemma_no_mention(item_side_effect(item), "sick"@);
            lemma_no_mention(item_side_effect(item), "explode"@);
            lemma_no_mention(item_side_effect(item), "blind"@);
        },
        Item::AxeShrooms => {
            reveal_strlit("Units may attack friendlies.");
            lemma_no_mention(item_side_effect(item), "run from"@);
            lemma_no_mention(item_side_effect(item), "slow"@);
            lemma_no_mention(item_side_effect(item), "combust"@);
            lemma_no_mention(item_side_effect(item), "sick"@);
            lemma_no_mention(item_side_effect(item), "explode"@);
            lemma_no_mention(item_side_effect(item), "blind"@);
        },
        Item::BogHardWeeds => {
            reveal_strlit("Some units become sick and unusable \nnext battle.");
            lemma_no_mention(item_side_effect(item), "run from"@);
            lemma_no_mention(item_side_effect(item), "slow"@);
            lemma_no_mention(item_side_effect(item), "combust"@);
            lemma_no_mention(item_side_effect(item), "friendlies"@);
            lemma_no_mention(item_side_effect(item), "explode"@);
            lemma_no_mention(item_side_effect(item), "blind"@);
        },
        Item::CeleryQuartz => {
            reveal_strlit("Units may explode.");
            lemma_no_mention(item_side_effect(item), "run from"@);
            lemma_no_mention(item_side_effect(item), "slow"@);
            lemma_no_mention(item_side_effect(item), "combust"@);
            lemma_no_mention(item_side_effect(item), "friendlies"@);
            lemma_no_mention(item_side_effect(item), "sick"@);
            lemma_no_mention(item_side_effect(item), "blind"@);
        },
        Item::FrostyWebStrands => {
            reveal_strlit("Units become blind and attack\nrandomly.");
            lemma_no_mention(item_side_effect(item), "run from"@);
            lemma_no_mention(item_side_effect(item), "slow"@);
            lemma_no_mention(item_side_effect(item), "combust"@);
            lemma_no_mention(item_side_effect(item), "friendlies"@);
            lemma_no_mention(item_side_effect(item), "sick"@);
            lemma_no_mention(item_side_effect(item), "explode"@);
        },
    }
}

} // verus!
