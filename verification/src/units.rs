use vstd::prelude::*;

use crate::flags::Attributes;

verus! {

/// The five kinds of rat soldier.
#[derive(Clone, Copy, Debug, PartialEq, Eq, Hash, Structural)]
pub enum UnitKind {
    Peasant,
    Warrior,
    Archer,
    Mage,
    Brute,
}

/// The kinds of attack a unit can make.
#[derive(Clone, Copy, Debug, PartialEq, Eq, Structural)]
pub enum Attack {
    Claw,
    Sword,
    Arrow,
    Magic,
    Axe,
}

/// The kind of damage an attack deals.
#[derive(Clone, Copy, Debug, PartialEq, Eq, Structural)]
pub enum DamageKind {
    Flesh,
    Sword,
    Arrow,
    Magic,
}

/// The kind of body a unit defends with.
#[derive(Clone, Copy, Debug, PartialEq, Eq, Structural)]
pub enum DefenseKind {
    Flesh,
    Armor,
}

/// How an attack reaches its targets.
#[derive(Clone, Copy, Debug, PartialEq, Eq, Structural)]
pub enum HurtBoxKind {
    /// A rectangle placed in front of the attacker.
    OffsetRect,
    /// An area around the middle of the opposing army.
    AreaOfEffect,
    /// A flying arrow.
    Projectile,
}

/// The whole-number properties of a kind of unit; its speeds and sizes are real numbers and
/// live with the renderer.
#[derive(Clone, Copy, Debug)]
pub struct UnitStats {
    /// Food needed to send one unit into battle.
    pub cost: usize,
    pub attack: Attack,
    pub defense_kind: DefenseKind,
    pub attributes: Attributes,
}

/// The whole-number properties of an attack; its damage and box sizes are real numbers.
#[derive(Clone, Copy, Debug)]
pub struct AttackStats {
    pub damage_kind: DamageKind,
    /// How many targets one swing may hit.
    pub hit_count: usize,
    pub hurt_box_kind: HurtBoxKind,
}

/// The food cost of a kind of unit.
pub open spec fn unit_cost(kind: UnitKind) -> nat {
    match kind {
        UnitKind::Peasant => 1,
        UnitKind::Warrior => 5,
        UnitKind::Archer => 3,
        UnitKind::Mage => 10,
        UnitKind::Brute => 15,
    }
}

/// The attack of a kind of unit.
pub open spec fn unit_attack(kind: UnitKind) -> Attack {
    match kind {
        UnitKind::Peasant => Attack::Claw,
        UnitKind::Warrior => Attack::Sword,
        UnitKind::Archer => Attack::Arrow,
        UnitKind::Mage => Attack::Magic,
        UnitKind::Brute => Attack::Axe,
    }
}

/// The defense of a kind of unit: warriors and brutes wear armor.
pub open spec fn unit_defense(kind: UnitKind) -> DefenseKind {
    match kind {
        UnitKind::Warrior | UnitKind::Brute => DefenseKind::Armor,
        _ => DefenseKind::Flesh,
    }
}

/// The attributes a kind of unit is born with.
pub open spec fn unit_attributes(kind: UnitKind) -> Attributes {
    Attributes {
        may_retreat: kind == UnitKind::Archer || kind == UnitKind::Mage,
        may_friendly_fire: kind == UnitKind::Brute,
        on_fire: false,
    }
}

/// The singular display name of a kind of unit.
pub open spec fn unit_name(kind: UnitKind) -> Seq<char> {
    match kind {
        UnitKind::Peasant => "Mobling"@,
        UnitKind::Warrior => "Stabby-Rat"@,
        UnitKind::Archer => "Shooty-Rat"@,
        UnitKind::Mage => "Blasty-Rat"@,
        UnitKind::Brute => "Bigg-Rat"@,
    }
}

/// The plural display name of a kind of unit.
pub open spec fn unit_name_plural(kind: UnitKind) -> Seq<char> {
    match kind {
        UnitKind::Peasant => "Moblings"@,
        UnitKind::Warrior => "Stabby-Rats"@,
        UnitKind::Archer => "Shooty-Rats"@,
        UnitKind::Mage => "Blasty-Rats"@,
        UnitKind::Brute => "Bigg-Rats"@,
    }
}

/// The position of a kind of unit in the declaration order.
pub open spec fn unit_index(kind: UnitKind) -> nat {
    match kind {
        UnitKind::Peasant => 0,
        UnitKind::Warrior => 1,
        UnitKind::Archer => 2,
        UnitKind::Mage => 3,
        UnitKind::Brute => 4,
    }
}

impl UnitKind {
    /// The whole-number stats of this kind of unit.
    pub fn stats(&self) -> (r: UnitStats)
        ensures
            r.cost == unit_cost(*self),
            r.attack == unit_attack(*self),
            r.defense_kind == unit_defense(*self),
            r.attributes == unit_attributes(*self),
    {
        match self {
            UnitKind::Peasant => UnitStats {
                cost: 1,
                attack: Attack::Claw,
                defense_kind: DefenseKind::Flesh,
                attributes: Attributes::empty(),
            },
            UnitKind::Warrior => UnitStats {
                cost: 5,
                attack: Attack::Sword,
                defense_kind: DefenseKind::Armor,
                attributes: Attributes::empty(),
            },
            UnitKind::Archer => UnitStats {
                cost: 3,
                attack: Attack::Arrow,
                defense_kind: DefenseKind::Flesh,
                attributes: Attributes { may_retreat: true, may_friendly_fire: false, on_fire: false },
            },
            UnitKind::Mage => UnitStats {
                cost: 10,
                attack: Attack::Magic,
                defense_kind: DefenseKind::Flesh,
                attributes: Attributes { may_retreat: true, may_friendly_fire: false, on_fire: false },
            },
            UnitKind::Brute => UnitStats {
                cost: 15,
                attack: Attack::Axe,
                defense_kind: DefenseKind::Armor,
                attributes: Attributes { may_retreat: false, may_friendly_fire: true, on_fire: false },
            },
        }
    }

    /// The singular display name.
    pub fn name(&self) -> (r: &'static str)
        ensures
            r@ == unit_name(*self),
    {
        match self {
            UnitKind::Peasant => "Mobling",
            UnitKind::Warrior => "Stabby-Rat",
            UnitKind::Archer => "Shooty-Rat",
            UnitKind::Mage => "Blasty-Rat",
            UnitKind::Brute => "Bigg-Rat",
        }
    }

    /// The plural display name.
    pub fn name_plural(&self) -> (r: &'static str)
        ensures
            r@ == unit_name_plural(*self),
    {
        match self {
            UnitKind::Peasant => "Moblings",
            UnitKind::Warrior => "Stabby-Rats",
            UnitKind::Archer => "Shooty-Rats",
            UnitKind::Mage => "Blasty-Rats",
            UnitKind::Brute => "Bigg-Rats",
        }
    }
}

/// The kind at position `i` of the order peasants, warriors, archers, mages, brutes.
pub open spec fn kind_at(i: int) -> UnitKind {
    if i == 0 {
        UnitKind::Peasant
    } else if i == 1 {
        UnitKind::Warrior
    } else if i == 2 {
        UnitKind::Archer
    } else if i == 3 {
        UnitKind::Mage
    } else {
        UnitKind::Brute
    }
}

/// Every kind of unit, in declaration order.
pub fn all_unit_kinds() -> (r: Vec<UnitKind>)
    ensures
        r.len() == 5,
        forall|i: int| 0 <= i < 5 ==> unit_index(#[trigger] r@[i]) == i,
{
    vec![UnitKind::Peasant, UnitKind::Warrior, UnitKind::Archer, UnitKind::Mage, UnitKind::Brute]
}

/// The hit count, damage kind and delivery of an attack.
pub open spec fn attack_hit_count(a: Attack) -> nat {
    match a {
        Attack::Claw => 3,
        Attack::Sword => 5,
        Attack::Arrow => 1,
        Attack::Magic => 20,
        Attack::Axe => 3,
    }
}

/// The kind of damage an attack deals.
pub open spec fn attack_damage_kind(a: Attack) -> DamageKind {
    match a {
        Attack::Claw => DamageKind::Flesh,
        Attack::Sword | Attack::Axe => DamageKind::Sword,
        Attack::Arrow => DamageKind::Arrow,
        Attack::Magic => DamageKind::Magic,
    }
}

/// How an attack reaches its targets.
pub open spec fn attack_hurt_box_kind(a: Attack) -> HurtBoxKind {
    match a {
        Attack::Arrow => HurtBoxKind::Projectile,
        Attack::Magic => HurtBoxKind::AreaOfEffect,
        _ => HurtBoxKind::OffsetRect,
    }
}

impl Attack {
    /// The whole-number stats of the attack.
    pub fn stats(&self) -> (r: AttackStats)
        ensures
            r.hit_count == attack_hit_count(*self),
            r.damage_kind == attack_damage_kind(*self),
            r.hurt_box_kind == attack_hurt_box_kind(*self),
    {
        match self {
            Attack::Claw => AttackStats {
                damage_kind: DamageKind::Flesh,
                hit_count: 3,
                hurt_box_kind: HurtBoxKind::OffsetRect,
            },
            Attack::Sword => AttackStats {
                damage_kind: DamageKind::Sword,
                hit_count: 5,
                hurt_box_kind: HurtBoxKind::OffsetRect,
            },
            Attack::Arrow => AttackStats {
                damage_kind: DamageKind::Arrow,
                hit_count: 1,
                hurt_box_kind: HurtBoxKind::Projectile,
            },
            Attack::Magic => AttackStats {
                damage_kind: DamageKind::Magic,
                hit_count: 20,
                hurt_box_kind: HurtBoxKind::AreaOfEffect,
            },
            Attack::Axe => AttackStats {
                damage_kind: DamageKind::Sword,
                hit_count: 3,
                hurt_box_kind: HurtBoxKind::OffsetRect,
            },
        }
    }
}

/// The damage multiplier of a damage kind against a defense kind, counted in
/// halves: 1 means x0.5, 2 means x1, 4 means x2.
pub open spec fn damage_multiplier_halves(d: DamageKind, defense: DefenseKind) -> nat {
    match (d, defense) {
        (DamageKind::Flesh, DefenseKind::Flesh) => 2,
        (DamageKind::Flesh, DefenseKind::Armor) => 1,
        (DamageKind::Sword, DefenseKind::Flesh) => 4,
        (DamageKind::Sword, DefenseKind::Armor) => 2,
        (DamageKind::Arrow, DefenseKind::Flesh) => 2,
        (DamageKind::Arrow, DefenseKind::Armor) => 4,
        (DamageKind::Magic, DefenseKind::Flesh) => 4,
        (DamageKind::Magic, DefenseKind::Armor) => 2,
    }
}

/// How damage meets defense: armor halves every kind of damage except
/// arrows, which pierce it and do double what they do to flesh; no
/// multiplier is below x0.5 or above x2; claws (flesh damage) are the weakest
/// against either defense; and every kind of damage hurts flesh at least as
/// much as claws hurt it.
pub proof fn law_armor_halves_all_but_arrows(d: DamageKind, defense: DefenseKind)
    ensures
        d != DamageKind::Arrow ==> 2 * damage_multiplier_halves(d, DefenseKind::Armor) == damage_multiplier_halves(
            d,
            DefenseKind::Flesh,
        ),
        d == DamageKind::Arrow ==> damage_multiplier_halves(d, DefenseKind::Armor) == 2 * damage_multiplier_halves(
            d,
            DefenseKind::Flesh,
        ),
        1 <= damage_multiplier_halves(d, defense) <= 4,
        damage_multiplier_halves(DamageKind::Flesh, defense) <= damage_multiplier_halves(d, defense),
        damage_multiplier_halves(DamageKind::Flesh, DefenseKind::Flesh) == 2,
{
}

impl DamageKind {
    /// The multiplier this damage kind has against `defense_kind`, in halves
    /// (the real multiplier is the result divided by two).
    pub fn damage_multiplier(&self, defense_kind: DefenseKind) -> (r: u32)
        ensures
            r == damage_multiplier_halves(*self, defense_kind),
    {
        match self {
            DamageKind::Flesh => match defense_kind {
                DefenseKind::Flesh => 2,
                DefenseKind::Armor => 1,
            },
            DamageKind::Sword => match defense_kind {
                DefenseKind::Flesh => 4,
                DefenseKind::Armor => 2,
            },
            DamageKind::Arrow => match defense_kind {
                DefenseKind::Flesh => 2,
                DefenseKind::Armor => 4,
            },
            DamageKind::Magic => match defense_kind {
                DefenseKind::Flesh => 4,
                DefenseKind::Armor => 2,
            },
        }
    }
}

/// How many units of each kind an army holds.
#[derive(Clone, Copy, Debug, PartialEq, Eq, Structural)]
pub struct UnitComposition {
    pub peasants: usize,
    pub warriors: usize,
    pub archers: usize,
    pub mages: usize,
    pub brutes: usize,
}

/// The army with `n` units of kind `k` and the others as in `c`.
pub open spec fn with_count(c: UnitComposition, k: UnitKind, n: usize) -> UnitComposition {
    match k {
        UnitKind::Peasant => UnitComposition { peasants: n, ..c },
        UnitKind::Warrior => UnitComposition { warriors: n, ..c },
        UnitKind::Archer => UnitComposition { archers: n, ..c },
        UnitKind::Mage => UnitComposition { mages: n, ..c },
        UnitKind::Brute => UnitComposition { brutes: n, ..c },
    }
}

impl UnitComposition {
    /// The number of units of `kind`.
    pub open spec fn count(self, kind: UnitKind) -> nat {
        match kind {
            UnitKind::Peasant => self.peasants as nat,
            UnitKind::Warrior => self.warriors as nat,
            UnitKind::Archer => self.archers as nat,
            UnitKind::Mage => self.mages as nat,
            UnitKind::Brute => self.brutes as nat,
        }
    }

    /// The number of units of all kinds together.
    pub open spec fn total(self) -> nat {
        (self.peasants + self.warriors + self.archers + self.mages + self.brutes) as nat
    }

    /// Whether adding `other` to this army overflows no count.
    pub open spec fn can_add(self, other: UnitComposition) -> bool {
        forall|k: UnitKind| self.count(k) + other.count(k) <= usize::MAX
    }

    /// The army with no unit at all, which is also the default.
    pub fn empty() -> (r: UnitComposition)
        ensures
            forall|k: UnitKind| r.count(k) == 0,
    {
        UnitComposition { peasants: 0, warriors: 0, archers: 0, mages: 0, brutes: 0 }
    }

    /// The number of units of `unit_kind`.
    pub fn get_count(&self, unit_kind: UnitKind) -> (r: usize)
        ensures
            r == self.count(unit_kind),
    {
        match unit_kind {
            UnitKind::Peasant => self.peasants,
            UnitKind::Warrior => self.warriors,
            UnitKind::Archer => self.archers,
            UnitKind::Mage => self.mages,
            UnitKind::Brute => self.brutes,
        }
    }

    /// Sets the number of units of `unit_kind` to `i`.
    pub fn set_count(&mut self, unit_kind: UnitKind, i: usize)
        ensures
            *final(self) == with_count(*old(self), unit_kind, i),
            final(self).count(unit_kind) == i,
            forall|k: UnitKind| k != unit_kind ==> final(self).count(k) == old(self).count(k),
    {
        match unit_kind {
            UnitKind::Peasant => self.peasants = i,
            UnitKind::Warrior => self.warriors = i,
            UnitKind::Archer => self.archers = i,
            UnitKind::Mage => self.mages = i,
            UnitKind::Brute => self.brutes = i,
        }
    }

    /// Replaces the number of units of `unit_kind` by `f` of it.
    pub fn mutate_count<F: Fn(usize) -> usize>(&mut self, unit_kind: UnitKind, f: F)
        requires
            f.requires((old(self).count(unit_kind) as usize,)),
        ensures
            f.ensures((old(self).count(unit_kind) as usize,), final(self).count(unit_kind) as usize),
            forall|k: UnitKind| k != unit_kind ==> final(self).count(k) == old(self).count(k),
    {
        let new_count = f(self.get_count(unit_kind));
        self.set_count(unit_kind, new_count);
    }

    /// Adds the units of `other` to this army, kind by kind.
    pub fn add_units(&mut self, other: &UnitComposition)
        requires
            old(self).can_add(*other),
        ensures
            forall|k: UnitKind| final(self).count(k) == old(self).count(k) + other.count(k),
    {
        let kinds = all_unit_kinds();
        let mut i: usize = 0;
        while i < 5
            invariant
                kinds.len() == 5,
                forall|j: int| 0 <= j < 5 ==> unit_index(#[trigger] kinds@[j]) == j,
                i <= 5,
                old(self).can_add(*other),
                forall|k: UnitKind|
                    unit_index(k) < i ==> self.count(k) == old(self).count(k) + other.count(k),
                forall|k: UnitKind| unit_index(k) >= i ==> self.count(k) == old(self).count(k),
            decreases 5 - i,
        {
            let unit_kind = kinds[i];
            let c = other.get_count(unit_kind);
            assert(self.count(unit_kind) + c <= usize::MAX);
            let add_c = |n: usize| -> (r: usize)
                requires
                    n + c <= usize::MAX,
                ensures
                    r == n + c,
                { n + c };
            self.mutate_count(unit_kind, add_c);
            i = i + 1;
        }
    }

    /// Takes the units of `other` out of this army, kind by kind; a count never
    /// drops below zero.
    pub fn subtract_units(&mut self, other: &UnitComposition)
        ensures
            forall|k: UnitKind|
                final(self).count(k) == if other.count(k) > old(self).count(k) {
                    0
                } else {
                    (old(self).count(k) - other.count(k)) as nat
                },
    {
        let kinds = all_unit_kinds();
        let mut i: usize = 0;
        while i < 5
            invariant
                kinds.len() == 5,
                forall|j: int| 0 <= j < 5 ==> unit_index(#[trigger] kinds@[j]) == j,
                i <= 5,
                forall|k: UnitKind|
                    unit_index(k) < i ==> self.count(k) == if other.count(k) > old(self).count(k) {
                        0
                    } else {
                        (old(self).count(k) - other.count(k)) as nat
                    },
                forall|k: UnitKind| unit_index(k) >= i ==> self.count(k) == old(self).count(k),
            decreases 5 - i,
        {
            let unit_kind = kinds[i];
            let c = other.get_count(unit_kind);
            let sub_c = |n: usize| -> (r: usize)
                ensures
                    r == if c > n { 0 } else { n - c },
                {
                    if c > n {
                        0
                    } else {
                        n - c
                    }
                };
            self.mutate_count(unit_kind, sub_c);
            i = i + 1;
        }
    }

    /// The number of units of all kinds together.
    pub fn total_units(&self) -> (r: usize)
        requires
            self.total() <= usize::MAX,
        ensures
            r == self.total(),
    {
        self.peasants + self.warriors + self.archers + self.mages + self.brutes
    }
}

impl Default for UnitComposition {
    fn default() -> (r: UnitComposition)
        ensures
            forall|k: UnitKind| r.count(k) == 0,
    {
        UnitComposition::empty()
    }
}

/// Adding an army and then taking the same army out gives back the army as it was.
pub proof fn law_add_then_subtract(a: UnitComposition, b: UnitComposition, sum: UnitComposition, back: UnitComposition)
    requires
        forall|k: UnitKind| sum.count(k) == a.count(k) + b.count(k),
        forall|k: UnitKind|
            back.count(k) == if b.count(k) > sum.count(k) {
                0
            } else {
                (sum.count(k) - b.count(k)) as nat
            },
    ensures
        forall|k: UnitKind| back.count(k) == a.count(k),
{
}

/// The total of a sum of armies is the sum of their totals.
pub proof fn law_total_of_sum(a: UnitComposition, b: UnitComposition, sum: UnitComposition)
    requires
        forall|k: UnitKind| sum.count(k) == a.count(k) + b.count(k),
    ensures
        sum.total() == a.total() + b.total(),
{
    assert(sum.count(UnitKind::Peasant) == a.count(UnitKind::Peasant) + b.count(UnitKind::Peasant));
    assert(sum.count(UnitKind::Warrior) == a.count(UnitKind::Warrior) + b.count(UnitKind::Warrior));
    assert(sum.count(UnitKind::Archer) == a.count(UnitKind::Archer) + b.count(UnitKind::Archer));
    assert(sum.count(UnitKind::Mage) == a.count(UnitKind::Mage) + b.count(UnitKind::Mage));
    assert(sum.count(UnitKind::Brute) == a.count(UnitKind::Brute) + b.count(UnitKind::Brute));
}

} // verus!
