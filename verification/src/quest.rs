use vstd::prelude::*;

use crate::articy::Articy;
use crate::dialogue::Script;
use crate::items::{item_index, BattleModifier, BattleModifiers, Item};
use crate::text::{lemma_no_mention, mentions};
use crate::units::UnitComposition;

verus! {

/// Where the player stands in the campaign: which war chef is being fought,
/// which of that war chef's battles comes next, and which item dialogues have
/// already been played.
#[derive(Clone, Copy, Debug)]
pub struct Quest {
    pub war_chef: usize,
    pub battle: usize,
    pub seen_item_dialogue: [bool; 7],
}

/// An army given by its counts, in the order peasants, warriors, archers,
/// mages, brutes.
pub open spec fn army(p: usize, w: usize, a: usize, m: usize, b: usize) -> UnitComposition {
    UnitComposition { peasants: p, warriors: w, archers: a, mages: m, brutes: b }
}

/// The army the enemy brings to the battle `battle` of the war chef `war_chef`;
/// no army at all past the last battle.
pub open spec fn enemy_units(war_chef: int, battle: int) -> UnitComposition {
    if war_chef == 0 && battle == 0 {
        army(3, 0, 0, 0, 0)
    } else if war_chef == 0 && battle == 1 {
        army(4, 0, 0, 0, 0)
    } else if war_chef == 0 && battle == 2 {
        army(10, 0, 0, 0, 0)
    } else if war_chef == 1 && battle == 0 {
        army(2, 2, 0, 0, 0)
    } else if war_chef == 1 && battle == 1 {
        army(10, 2, 0, 0, 0)
    } else if war_chef == 1 && battle == 2 {
        army(8, 1, 0, 0, 0)
    } else if war_chef == 2 && battle == 0 {
        army(3, 0, 10, 0, 0)
    } else if war_chef == 2 && battle == 1 {
        army(5, 1, 15, 0, 0)
    } else if war_chef == 2 && battle == 2 {
        army(3, 1, 5, 0, 0)
    } else if war_chef == 2 && battle == 3 {
        army(0, 0, 0, 0, 1)
    } else if war_chef == 3 && battle == 0 {
        army(5, 1, 0, 0, 0)
    } else if war_chef == 3 && battle == 1 {
        army(8, 2, 0, 1, 0)
    } else if war_chef == 3 && battle == 2 {
        army(10, 1, 0, 1, 0)
    } else if war_chef == 3 && battle == 3 {
        army(10, 0, 0, 2, 0)
    } else if war_chef == 4 && battle == 0 {
        army(40, 0, 3, 0, 0)
    } else if war_chef == 4 && battle == 1 {
        army(0, 6, 0, 0, 1)
    } else if war_chef == 4 && battle == 2 {
        army(10, 2, 2, 0, 2)
    } else {
        army(0, 0, 0, 0, 0)
    }
}

/// Whether the enemy fights the battle `battle` of the war chef `war_chef`
/// under the modifier `m`: fire and combustion in the third battle of the
/// fourth war chef, wet and slowness in the first battle of the fifth.
pub open spec fn enemy_modifier_on(war_chef: int, battle: int, m: BattleModifier) -> bool {
    if war_chef == 3 && battle == 2 {
        m == BattleModifier::Fire || m == BattleModifier::Combustion
    } else if war_chef == 4 && battle == 0 {
        m == BattleModifier::Wet || m == BattleModifier::Slowness
    } else {
        false
    }
}

/// The line announcing the battle `battle` of the war chef `war_chef`.
pub open spec fn quest_hint(war_chef: int, battle: int) -> Seq<char> {
    if war_chef == 0 && 0 <= battle <= 2 {
        "Glut Rattan's small mobling force approaches!"@
    } else if war_chef == 1 && battle == 0 {
        "Toothsy's small parley force approaches!"@
    } else if war_chef == 1 && battle == 1 {
        "Toothsy hopes to win this battle with moblings and warriors!"@
    } else if war_chef == 1 && battle == 2 {
        "Toothsy is weak but still has plenty of fight!"@
    } else if war_chef == 2 && battle == 0 {
        "Rattin Hood hopes to rain arrows from above!"@
    } else if war_chef == 2 && battle == 1 {
        "Rattin Hood is making a stronger front line for his archers!"@
    } else if war_chef == 2 && battle == 2 {
        "Rattin Hood is almost out of steam!"@
    } else if war_chef == 2 && battle == 3 {
        "The ground shakes from Rattin Hood's final combatant!"@
    } else if war_chef == 3 && battle == 0 {
        "Archmage Ratus sends a small force to test your army!"@
    } else if war_chef == 3 && battle == 1 {
        "Archmage Ratus aids his warriors with the power of magic!"@
    } else if war_chef == 3 && battle == 2 {
        "Archmage Ratus aids his warriors with the power of magic, again!"@
    } else if war_chef == 3 && battle == 3 {
        "Archmage Ratus sends his mobling hoard guarded by two mages!"@
    } else if war_chef == 4 && battle == 0 {
        "Chompers the Barbarian sends his unstoppable (and soaked) mobling hoard!"@
    } else if war_chef == 4 && battle == 1 {
        "Chompers the Barbarian sends his finest warriors and one Bigg-Rat!"@
    } else if war_chef == 4 && battle == 2 {
        "The final battle!"@
    } else {
        "??"@
    }
}

/// The dialogue played before planning the battle `battle` of the war chef
/// `war_chef`, for the first three war chefs.
pub open spec fn preplanning_name(war_chef: int, battle: int) -> Option<Seq<char>> {
    if war_chef == 0 && battle == 0 {
        Some("WC1B1"@)
    } else if war_chef == 0 && battle == 1 {
        Some("WC1B2"@)
    } else if war_chef == 0 && battle == 2 {
        Some("WC1B3"@)
    } else if war_chef == 1 && battle == 0 {
        Some("WC2B1"@)
    } else if war_chef == 1 && battle == 1 {
        Some("WC2B2"@)
    } else if war_chef == 1 && battle == 2 {
        Some("WC2B3"@)
    } else if war_chef == 2 && battle == 0 {
        Some("WC3B1"@)
    } else if war_chef == 2 && battle == 1 {
        Some("WC3B2"@)
    } else if war_chef == 2 && battle == 2 {
        Some("WC3B3"@)
    } else if war_chef == 2 && battle == 3 {
        Some("WC3B4"@)
    } else {
        None
    }
}

/// The dialogue played the first time an item is used: none for firemander
/// salts, and none for bog hard-weeds in the third battle against the second
/// war chef.
pub open spec fn item_dialogue_name(item: Item, war_chef: int, battle: int) -> Option<Seq<char>> {
    match item {
        Item::BogHardWeeds => if war_chef == 1 && battle == 2 {
            None
        } else {
            Some("BogHardWeeds"@)
        },
        Item::CeleryQuartz => Some("CeleryQuartz"@),
        Item::CracklingMoss => Some("CracklingMoss"@),
        Item::AxeShrooms => Some("AxeShrooms"@),
        Item::SquirtBlopBerries => Some("SquirtBlopBerries"@),
        Item::FrostyWebStrands => Some("FrostyWebStrands"@),
        Item::FiremanderSalts => None,
    }
}

/// The position in the campaign after winning (or skipping) a battle: the next
/// battle, moving on to the next war chef after the third battle of the first
/// and of the second war chef.
pub open spec fn quest_next(war_chef: int, battle: int) -> (int, int) {
    if war_chef == 0 && battle + 1 == 3 {
        (1, 0)
    } else if war_chef == 1 && battle + 1 == 3 {
        (2, 0)
    } else {
        (war_chef, battle + 1)
    }
}

impl Quest {
    /// Whether the dialogue about `item` has been played.
    pub open spec fn seen(self, item: Item) -> bool {
        self.seen_item_dialogue@[item_index(item) as int]
    }

    /// The start of the campaign: the first battle of the first war chef, no
    /// item dialogue seen.
    pub fn new() -> (r: Quest)
        ensures
            r.war_chef == 0,
            r.battle == 0,
            forall|i: Item| !r.seen(i),
    {
        Quest { war_chef: 0, battle: 0, seen_item_dialogue: [false; 7] }
    }

    /// The army the enemy brings to the coming battle.
    pub fn enemy_unit_composition(&self) -> (r: UnitComposition)
        ensures
            r == enemy_units(self.war_chef as int, self.battle as int),
    {
        let (p, w, a, m, b): (usize, usize, usize, usize, usize) = match self.war_chef {
            0 => match self.battle {
                0 => (3, 0, 0, 0, 0),
                1 => (4, 0, 0, 0, 0),
                2 => (10, 0, 0, 0, 0),
                _ => (0, 0, 0, 0, 0),
            },
            1 => match self.battle {
                0 => (2, 2, 0, 0, 0),
                1 => (10, 2, 0, 0, 0),
                2 => (8, 1, 0, 0, 0),
                _ => (0, 0, 0, 0, 0),
            },
            2 => match self.battle {
                0 => (3, 0, 10, 0, 0),
                1 => (5, 1, 15, 0, 0),
                2 => (3, 1, 5, 0, 0),
                3 => (0, 0, 0, 0, 1),
                _ => (0, 0, 0, 0, 0),
            },
            3 => match self.battle {
                0 => (5, 1, 0, 0, 0),
                1 => (8, 2, 0, 1, 0),
                2 => (10, 1, 0, 1, 0),
                3 => (10, 0, 0, 2, 0),
                _ => (0, 0, 0, 0, 0),
            },
            4 => match self.battle {
                0 => (40, 0, 3, 0, 0),
                1 => (0, 6, 0, 0, 1),
                2 => (10, 2, 2, 0, 2),
                _ => (0, 0, 0, 0, 0),
            },
            _ => (0, 0, 0, 0, 0),
        };
        UnitComposition { peasants: p, warriors: w, archers: a, mages: m, brutes: b }
    }

    /// The modifiers the enemy fights the coming battle under.
    pub fn enemy_modifiers(&self) -> (r: BattleModifiers)
        ensures
            forall|m: BattleModifier| r.has(m) == enemy_modifier_on(self.war_chef as int, self.battle as int, m),
    {
        let mut r = BattleModifiers::new();
        if self.war_chef == 3 && self.battle == 2 {
            r.set(BattleModifier::Fire, true);
            r.set(BattleModifier::Combustion, true);
        } else if self.war_chef == 4 && self.battle == 0 {
            r.set(BattleModifier::Wet, true);
            r.set(BattleModifier::Slowness, true);
        }
        r
    }

    /// The line announcing the coming battle.
    pub fn hint(&self) -> (r: &'static str)
        ensures
            r@ == quest_hint(self.war_chef as int, self.battle as int),
    {
        match self.war_chef {
            0 => match self.battle {
                0 => "Glut Rattan's small mobling force approaches!",
                1 => "Glut Rattan's small mobling force approaches!",
                2 => "Glut Rattan's small mobling force approaches!",
                _ => "??",
            },
            1 => match self.battle {
                0 => "Toothsy's small parley force approaches!",
                1 => "Toothsy hopes to win this battle with moblings and warriors!",
                2 => "Toothsy is weak but still has plenty of fight!",
                _ => "??",
            },
            2 => match self.battle {
                0 => "Rattin Hood hopes to rain arrows from above!",
                1 => "Rattin Hood is making a stronger front line for his archers!",
                2 => "Rattin Hood is almost out of steam!",
                3 => "The ground shakes from Rattin Hood's final combatant!",
                _ => "??",
            },
            3 => match self.battle {
                0 => "Archmage Ratus sends a small force to test your army!",
                1 => "Archmage Ratus aids his warriors with the power of magic!",
                2 => "Archmage Ratus aids his warriors with the power of magic, again!",
                3 => "Archmage Ratus sends his mobling hoard guarded by two mages!",
                _ => "??",
            },
            4 => match self.battle {
                0 => "Chompers the Barbarian sends his unstoppable (and soaked) mobling hoard!",
                1 => "Chompers the Barbarian sends his finest warriors and one Bigg-Rat!",
                2 => "The final battle!",
                _ => "??",
            },
            _ => "??",
        }
    }

    /// Moves on to the next battle.
    pub fn next(&mut self)
        requires
            old(self).battle < usize::MAX,
        ensures
            (final(self).war_chef as int, final(self).battle as int) == quest_next(
                old(self).war_chef as int,
                old(self).battle as int,
            ),
            final(self).seen_item_dialogue == old(self).seen_item_dialogue,
    {
        self.battle = self.battle + 1;
        if self.war_chef == 0 && self.battle == 3 {
            self.war_chef = 1;
            self.battle = 0;
        } else if self.war_chef == 1 && self.battle == 3 {
            self.war_chef = 2;
            self.battle = 0;
        }
    }

    /// The name of the dialogue played before planning the coming battle.
    pub fn preplanning_dialogue_name(&self) -> (r: Option<&'static str>)
        ensures
            match r {
                Some(n) => preplanning_name(self.war_chef as int, self.battle as int) == Some(n@),
                None => preplanning_name(self.war_chef as int, self.battle as int) is None,
            },
    {
        match self.war_chef {
            0 => match self.battle {
                0 => Some("WC1B1"),
                1 => Some("WC1B2"),
                2 => Some("WC1B3"),
                _ => None,
            },
            1 => match self.battle {
                0 => Some("WC2B1"),
                1 => Some("WC2B2"),
                2 => Some("WC2B3"),
                _ => None,
            },
            2 => match self.battle {
                0 => Some("WC3B1"),
                1 => Some("WC3B2"),
                2 => Some("WC3B3"),
                3 => Some("WC3B4"),
                _ => None,
            },
            _ => None,
        }
    }

    /// The dialogue played before planning the coming battle, taken from
    /// `articy`, which must hold it.
    pub fn preplanning_script(&self, articy: &Articy) -> (r: Option<Script>)
        requires
            preplanning_name(self.war_chef as int, self.battle as int) matches Some(n)
                ==> articy@.has_dialogue(n),
        ensures
            match r {
                Some(s) => preplanning_name(self.war_chef as int, self.battle as int) matches Some(n)
                    && s@ == articy@.dialogue(n),
                None => preplanning_name(self.war_chef as int, self.battle as int) is None,
            },
    {
        match self.preplanning_dialogue_name() {
            Some(name) => Some(Script::new(articy.expect_dialogue(name))),
            None => None,
        }
    }

    /// The name of the dialogue played the first time `used_item` is used; the
    /// dialogue counts as played from then on, and nothing is played again.
    pub fn item_dialogue(&mut self, used_item: Item) -> (r: Option<&'static str>)
        ensures
            final(self).war_chef == old(self).war_chef,
            final(self).battle == old(self).battle,
            final(self).seen(used_item),
            forall|i: Item| i != used_item ==> final(self).seen(i) == old(self).seen(i),
            match r {
                Some(n) => !old(self).seen(used_item) && item_dialogue_name(
                    used_item,
                    old(self).war_chef as int,
                    old(self).battle as int,
                ) == Some(n@),
                None => old(self).seen(used_item) || item_dialogue_name(
                    used_item,
                    old(self).war_chef as int,
                    old(self).battle as int,
                ) is None,
            },
    {
        let i = used_item.index();
        if !self.seen_item_dialogue[i] {
            self.seen_item_dialogue[i] = true;
            match used_item {
                Item::BogHardWeeds => if self.war_chef == 1 && self.battle == 2 {
                    None
                } else {
                    Some("BogHardWeeds")
                },
                Item::CeleryQuartz => Some("CeleryQuartz"),
                Item::CracklingMoss => Some("CracklingMoss"),
                Item::AxeShrooms => Some("AxeShrooms"),
                Item::SquirtBlopBerries => Some("SquirtBlopBerries"),
                Item::FrostyWebStrands => Some("FrostyWebStrands"),
                Item::FiremanderSalts => None,
            }
        } else {
            None
        }
    }

    /// The dialogue played the first time `used_item` is used, taken from
    /// `articy`, which must hold it (see `item_dialogue`).
    pub fn item_script(&mut self, used_item: Item, articy: &Articy) -> (r: Option<Script>)
        requires
            !old(self).seen(used_item) ==> (item_dialogue_name(
                used_item,
                old(self).war_chef as int,
                old(self).battle as int,
            ) matches Some(n) ==> articy@.has_dialogue(n)),
        ensures
            final(self).war_chef == old(self).war_chef,
            final(self).battle == old(self).battle,
            final(self).seen(used_item),
            forall|i: Item| i != used_item ==> final(self).seen(i) == old(self).seen(i),
            match r {
                Some(s) => !old(self).seen(used_item) && (item_dialogue_name(
                    used_item,
                    old(self).war_chef as int,
                    old(self).battle as int,
                ) matches Some(n) && s@ == articy@.dialogue(n)),
                None => old(self).seen(used_item) || item_dialogue_name(
                    used_item,
                    old(self).war_chef as int,
                    old(self).battle as int,
                ) is None,
            },
    {
        match self.item_dialogue(used_item) {
            Some(name) => Some(Script::new(articy.expect_dialogue(name))),
            None => None,
        }
    }
}

impl Default for Quest {
    fn default() -> (r: Quest)
        ensures
            r.war_chef == 0,
            r.battle == 0,
            forall|i: Item| !r.seen(i),
    {
        Quest::new()
    }
}

/// The enemy brings what a battle's announcement promises: magic means at
/// least one mage and "two mages" exactly two; warriors, archers or arrows,
/// moblings and a Bigg-Rat mean at least one warrior, archer, peasant and
/// brute, and a soaked army fights wet.
pub proof fn law_hint_matches_army(war_chef: int, battle: int)
    ensures
        mentions(quest_hint(war_chef, battle), "magic"@) ==> enemy_units(war_chef, battle).mages >= 1,
        mentions(quest_hint(war_chef, battle), "two mages"@) ==> enemy_units(war_chef, battle).mages == 2,
        mentions(quest_hint(war_chef, battle), "warriors"@) ==> enemy_units(war_chef, battle).warriors >= 1,
        mentions(quest_hint(war_chef, battle), "archers"@) ==> enemy_units(war_chef, battle).archers >= 1,
        mentions(quest_hint(war_chef, battle), "arrows"@) ==> enemy_units(war_chef, battle).archers >= 1,
        mentions(quest_hint(war_chef, battle), "mobling"@) ==> enemy_units(war_chef, battle).peasants >= 1,
        mentions(quest_hint(war_chef, battle), "Bigg-Rat"@) ==> enemy_units(war_chef, battle).brutes >= 1,
        mentions(quest_hint(war_chef, battle), "soaked"@) ==> enemy_modifier_on(war_chef, battle, BattleModifier::Wet),
{
    reveal_strlit("magic");
    reveal_strlit("two mages");
    reveal_strlit("warriors");
    reveal_strlit("archers");
    reveal_strlit("arrows");
    reveal_strlit("mobling");
    reveal_strlit("Bigg-Rat");
    reveal_strlit("soaked");
    if war_chef == 0 && 0 <= battle <= 2 {
        reveal_strlit("Glut Rattan's small mobling force approaches!");
        lemma_no_mention(quest_hint(war_chef, battle), "soaked"@);
        lemma_no_mention(quest_hint(war_chef, battle), "magic"@);
        lemma_no_mention(quest_hint(war_chef, battle), "two mages"@);
        lemma_no_mention(quest_hint(war_chef, battle), "warriors"@);
        lemma_no_mention(quest_hint(war_chef, battle), "archers"@);
        lemma_no_mention(quest_hint(war_chef, battle), "arrows"@);
        lemma_no_mention(quest_hint(war_chef, battle), "Bigg-Rat"@);
    } else if war_chef == 1 && battle == 0 {
        reveal_strlit("Toothsy's small parley force approaches!");
        lemma_no_mention(quest_hint(war_chef, battle), "soaked"@);
        lemma_no_mention(quest_hint(war_chef, battle), "magic"@);
        lemma_no_mention(quest_hint(war_chef, battle), "two mages"@);
        lemma_no_mention(quest_hint(war_chef, battle), "archers"@);
        lemma_no_mention(quest_hint(war_chef, battle), "arrows"@);
        lemma_no_mention(quest_hint(war_chef, battle), "Bigg-Rat"@);
    } else if war_chef == 1 && battle == 1 {
        reveal_strlit("Toothsy hopes to win this battle with moblings and warriors!");
        lemma_no_mention(quest_hint(war_chef, battle), "soaked"@);
        lemma_no_mention(quest_hint(war_chef, battle), "magic"@);
        lemma_no_mention(quest_hint(war_chef, battle), "two mages"@);
        lemma_no_mention(quest_hint(war_chef, battle), "archers"@);
        lemma_no_mention(quest_hint(war_chef, battle), "arrows"@);
        lemma_no_mention(quest_hint(war_chef, battle), "Bigg-Rat"@);
    } else if war_chef == 1 && battle == 2 {
        reveal_strlit("Toothsy is weak but still has plenty of fight!");
        lemma_no_mention(quest_hint(war_chef, battle), "soaked"@);
        lemma_no_mention(quest_hint(war_chef, battle), "magic"@);
        lemma_no_mention(quest_hint(war_chef, battle), "two mages"@);
        lemma_no_mention(quest_hint(war_chef, battle), "archers"@);
        lemma_no_mention(quest_hint(war_chef, battle), "arrows"@);
        lemma_no_mention(quest_hint(war_chef, battle), "Bigg-Rat"@);
    } else if war_chef == 2 && battle == 0 {
        reveal_strlit("Rattin Hood hopes to rain arrows from above!");
        lemma_no_mention(quest_hint(war_chef, battle), "soaked"@);
        lemma_no_mention(quest_hint(war_chef, battle), "magic"@);
        lemma_no_mention(quest_hint(war_chef, battle), "two mages"@);
        lemma_no_mention(quest_hint(war_chef, battle), "warriors"@);
        lemma_no_mention(quest_hint(war_chef, battle), "Bigg-Rat"@);
    } else if war_chef == 2 && battle == 1 {
        reveal_strlit("Rattin Hood is making a stronger front line for his archers!");
        lemma_no_mention(quest_hint(war_chef, battle), "soaked"@);
        lemma_no_mention(quest_hint(war_chef, battle), "magic"@);
        lemma_no_mention(quest_hint(war_chef, battle), "two mages"@);
        lemma_no_mention(quest_hint(war_chef, battle), "Bigg-Rat"@);
    } else if war_chef == 2 && battle == 2 {
        reveal_strlit("Rattin Hood is almost out of steam!");
        lemma_no_mention(quest_hint(war_chef, battle), "soaked"@);
        lemma_no_mention(quest_hint(war_chef, battle), "magic"@);
        lemma_no_mention(quest_hint(war_chef, battle), "two mages"@);
        lemma_no_mention(quest_hint(war_chef, battle), "Bigg-Rat"@);
    } else if war_chef == 2 && battle == 3 {
        reveal_strlit("The ground shakes from Rattin Hood's final combatant!");
        lemma_no_mention(quest_hint(war_chef, battle), "soaked"@);
        lemma_no_mention(quest_hint(war_chef, battle), "magic"@);
        lemma_no_mention(quest_hint(war_chef, battle), "two mages"@);
        lemma_no_mention(quest_hint(war_chef, battle), "warriors"@);
        lemma_no_mention(quest_hint(war_chef, battle), "archers"@);
        lemma_no_mention(quest_hint(war_chef, battle), "arrows"@);
        lemma_no_mention(quest_hint(war_chef, battle), "mobling"@);
    } else if war_chef == 3 && battle == 0 {
        reveal_strlit("Archmage Ratus sends a small force to test your army!");
        lemma_no_mention(quest_hint(war_chef, battle), "soaked"@);
        lemma_no_mention(quest_hint(war_chef, battle), "magic"@);
        lemma_no_mention(quest_hint(war_chef, battle), "two mages"@);
        lemma_no_mention(quest_hint(war_chef, battle), "archers"@);
        lemma_no_mention(quest_hint(war_chef, battle), "arrows"@);
        lemma_no_mention(quest_hint(war_chef, battle), "Bigg-Rat"@);
    } else if war_chef == 3 && battle == 1 {
        reveal_strlit("Archmage Ratus aids his warriors with the power of magic!");
        lemma_no_mention(quest_hint(war_chef, battle), "soaked"@);
        lemma_no_mention(quest_hint(war_chef, battle), "two mages"@);
        lemma_no_mention(quest_hint(war_chef, battle), "archers"@);
        lemma_no_mention(quest_hint(war_chef, battle), "arrows"@);
        lemma_no_mention(quest_hint(war_chef, battle), "Bigg-Rat"@);
    } else if war_chef == 3 && battle == 2 {
        reveal_strlit("Archmage Ratus aids his warriors with the power of magic, again!");
        lemma_no_mention(quest_hint(war_chef, battle), "soaked"@);
        lemma_no_mention(quest_hint(war_chef, battle), "two mages"@);
        lemma_no_mention(quest_hint(war_chef, battle), "archers"@);
        lemma_no_mention(quest_hint(war_chef, battle), "arrows"@);
        lemma_no_mention(quest_hint(war_chef, battle), "Bigg-Rat"@);
    } else if war_chef == 3 && battle == 3 {
        reveal_strlit("Archmage Ratus sends his mobling hoard guarded by two mages!");
        lemma_no_mention(quest_hint(war_chef, battle), "soaked"@);
        lemma_no_mention(quest_hint(war_chef, battle), "warriors"@);
        lemma_no_mention(quest_hint(war_chef, battle), "archers"@);
        lemma_no_mention(quest_hint(war_chef, battle), "arrows"@);
        lemma_no_mention(quest_hint(war_chef, battle), "Bigg-Rat"@);
    } else if war_chef == 4 && battle == 0 {
        reveal_strlit("Chompers the Barbarian sends his unstoppable (and soaked) mobling hoard!");
        lemma_no_mention(quest_hint(war_chef, battle), "magic"@);
        lemma_no_mention(quest_hint(war_chef, battle), "two mages"@);
        lemma_no_mention(quest_hint(war_chef, battle), "warriors"@);
        lemma_no_mention(quest_hint(war_chef, battle), "Bigg-Rat"@);
    } else if war_chef == 4 && battle == 1 {
        reveal_strlit("Chompers the Barbarian sends his finest warriors and one Bigg-Rat!");
        lemma_no_mention(quest_hint(war_chef, battle), "soaked"@);
        lemma_no_mention(quest_hint(war_chef, battle), "magic"@);
        lemma_no_mention(quest_hint(war_chef, battle), "two mages"@);
        lemma_no_mention(quest_hint(war_chef, battle), "archers"@);
        lemma_no_mention(quest_hint(war_chef, battle), "arrows"@);
        lemma_no_mention(quest_hint(war_chef, battle), "mobling"@);
    } else if war_chef == 4 && battle == 2 {
        reveal_strlit("The final battle!");
        lemma_no_mention(quest_hint(war_chef, battle), "soaked"@);
        lemma_no_mention(quest_hint(war_chef, battle), "magic"@);
        lemma_no_mention(quest_hint(war_chef, battle), "two mages"@);
    } else {
        reveal_strlit("??");
    }
}

} // verus!
