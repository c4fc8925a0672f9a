use vstd::prelude::*;

verus! {

/// Which teams a hit box belongs to, or which teams a hurt box can damage.
#[derive(Clone, Copy, Debug, PartialEq, Eq, Structural)]
pub struct DamageFlags {
    pub friendly: bool,
    pub enemy: bool,
}

impl DamageFlags {
    /// No team at all.
    pub fn empty() -> (r: DamageFlags)
        ensures
            !r.friendly && !r.enemy,
    {
        DamageFlags { friendly: false, enemy: false }
    }

    /// The friendly team only.
    pub fn friendly_only() -> (r: DamageFlags)
        ensures
            r.friendly && !r.enemy,
    {
        DamageFlags { friendly: true, enemy: false }
    }

    /// The enemy team only.
    pub fn enemy_only() -> (r: DamageFlags)
        ensures
            !r.friendly && r.enemy,
    {
        DamageFlags { friendly: false, enemy: true }
    }

    /// Both teams together (the `|` of two flag sets).
    pub fn union(self, other: DamageFlags) -> (r: DamageFlags)
        ensures
            r.friendly == (self.friendly || other.friendly),
            r.enemy == (self.enemy || other.enemy),
    {
        DamageFlags { friendly: self.friendly || other.friendly, enemy: self.enemy || other.enemy }
    }

    /// Whether the two sets share a team (`a & b != empty`).
    pub fn intersects(self, other: DamageFlags) -> (r: bool)
        ensures
            r == ((self.friendly && other.friendly) || (self.enemy && other.enemy)),
    {
        (self.friendly && other.friendly) || (self.enemy && other.enemy)
    }

    /// The raw bit pattern: bit 0 for friendly, bit 1 for enemy.
    pub fn bits(self) -> (r: u32)
        ensures
            r == (if self.friendly { 1u32 } else { 0u32 }) + (if self.enemy { 2u32 } else { 0u32 }),
    {
        let f: u32 = if self.friendly { 1 } else { 0 };
        let e: u32 = if self.enemy { 2 } else { 0 };
        f + e
    }
}

/// Special properties of a unit.
#[derive(Clone, Copy, Debug, PartialEq, Eq, Structural)]
pub struct Attributes {
    pub may_retreat: bool,
    pub may_friendly_fire: bool,
    pub on_fire: bool,
}

impl Attributes {
    /// The same attributes with `on_fire` added.
    pub open spec fn with_on_fire_spec(self) -> Attributes {
        Attributes { on_fire: true, ..self }
    }

    /// No attribute set.
    pub fn empty() -> (r: Attributes)
        ensures
            !r.may_retreat && !r.may_friendly_fire && !r.on_fire,
    {
        Attributes { may_retreat: false, may_friendly_fire: false, on_fire: false }
    }

    /// The same attributes with `on_fire` added (`|= ON_FIRE`).
    pub fn with_on_fire(self) -> (r: Attributes)
        ensures
            r == self.with_on_fire_spec(),
            r.on_fire,
            r.may_retreat == self.may_retreat,
            r.may_friendly_fire == self.may_friendly_fire,
    {
        Attributes { on_fire: true, ..self }
    }
}

} // verus!
