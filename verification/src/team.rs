use vstd::prelude::*;

use crate::flags::DamageFlags;

verus! {

/// The two sides of a battle.
#[derive(Clone, Copy, Debug, PartialEq, Eq, Hash, Structural)]
pub enum Team {
    Friendly,
    Enemy,
}

impl Team {
    /// The flags of this team's hit boxes: its own team.
    pub fn hit_flags(&self) -> (r: DamageFlags)
        ensures
            r == self.hit_flags_spec(),
    {
        match self {
            Team::Friendly => DamageFlags::friendly_only(),
            Team::Enemy => DamageFlags::enemy_only(),
        }
    }

    /// The flags of this team's hurt boxes: the opposite team.
    pub fn hurt_flags(&self) -> (r: DamageFlags)
        ensures
            r == self.hurt_flags_spec(),
    {
        match self {
            Team::Friendly => DamageFlags::enemy_only(),
            Team::Enemy => DamageFlags::friendly_only(),
        }
    }

    /// The other side.
    pub fn opposite_team(&self) -> (r: Team)
        ensures
            r != *self,
    {
        match self {
            Team::Friendly => Team::Enemy,
            Team::Enemy => Team::Friendly,
        }
    }

    /// The direction a team walks in, as a sign: the friendly team walks
    /// towards positive x, the enemy towards negative x.
    pub fn move_direction_sign(&self) -> (r: i8)
        ensures
            r == (if *self == Team::Friendly { 1i8 } else { -1i8 }),
    {
        match self {
            Team::Friendly => 1,
            Team::Enemy => -1,
        }
    }
}

/// A team's hurt flags meet exactly the hit flags of the other team: units
/// damage their enemies and never, unless friendly fire is added, their own side.
pub proof fn law_hurt_meets_only_opposite(attacker: Team, target: Team)
    ensures
        (attacker.hurt_flags_spec().friendly && target.hit_flags_spec().friendly)
            || (attacker.hurt_flags_spec().enemy && target.hit_flags_spec().enemy)
            <==> attacker != target,
{
}

impl Team {
    /// The flags that `hit_flags` returns.
    pub open spec fn hit_flags_spec(self) -> DamageFlags {
        DamageFlags { friendly: self == Team::Friendly, enemy: self == Team::Enemy }
    }

    /// The flags that `hurt_flags` returns.
    pub open spec fn hurt_flags_spec(self) -> DamageFlags {
        DamageFlags { friendly: self == Team::Enemy, enemy: self == Team::Friendly }
    }
}

} // verus!
