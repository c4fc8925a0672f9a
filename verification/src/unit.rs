use vstd::prelude::*;

use crate::battle::{gen_ratio, BattlePhase, DamageModifiers};
use crate::flags::Attributes;
use crate::items::{BattleModifier, BattleModifiers};
use crate::team::Team;
use crate::units::{unit_attributes, unit_defense, DefenseKind, UnitKind};

verus! {

/// The whole-number state of a soldier on the battlefield: its side and kind,
/// whether it is running away, whether it is blind, and its attributes.
#[derive(Clone, Copy, Debug)]
pub struct Unit {
    pub team: Team,
    pub kind: UnitKind,
    pub retreating: bool,
    pub blind: bool,
    pub attributes: Attributes,
}

/// How a soldier walks: at the retreating pace, slowed down after a hit, or
/// at its normal pace.
#[derive(Clone, Copy, Debug, PartialEq, Eq, Structural)]
pub enum SpeedMode {
    Retreat,
    Slow,
    Normal,
}

impl Unit {
    /// Whether the soldier attacks: only when it is not running away.
    pub fn can_attack(&self) -> (r: bool)
        ensures
            r == !self.retreating,
    {
        !self.retreating
    }

    /// The direction the soldier walks in, as a sign: its team's direction,
    /// turned around while it runs away.
    pub fn move_direction_sign(&self) -> (r: i8)
        ensures
            r == (if (self.team == Team::Friendly) != self.retreating { 1i8 } else { -1i8 }),
    {
        let d = self.team.move_direction_sign();
        if self.retreating {
            -d
        } else {
            d
        }
    }

    /// The pace the soldier walks at, given whether it was hit lately.
    pub fn speed_mode(&self, slowed: bool) -> (r: SpeedMode)
        ensures
            r == (if self.retreating {
                SpeedMode::Retreat
            } else if slowed {
                SpeedMode::Slow
            } else {
                SpeedMode::Normal
            }),
    {
        if self.retreating {
            SpeedMode::Retreat
        } else if slowed {
            SpeedMode::Slow
        } else {
            SpeedMode::Normal
        }
    }

    /// A hit soldier starts running away when the retreat roll came out true
    /// and it may retreat, or its side is cowardly. Says whether it runs now.
    pub fn hit_by_damage(&mut self, retreat_roll: bool, modifiers: &BattleModifiers) -> (r: bool)
        ensures
            r == (old(self).retreating || (retreat_roll && (old(self).attributes.may_retreat
                || modifiers.has(BattleModifier::Cowardly)))),
            final(self).retreating == r,
            final(self).team == old(self).team,
            final(self).kind == old(self).kind,
            final(self).blind == old(self).blind,
            final(self).attributes == old(self).attributes,
    {
        if retreat_roll && (self.attributes.may_retreat || modifiers.get(BattleModifier::Cowardly)) {
            self.retreating = true;
        }
        self.retreating
    }

    /// Sets the soldier on fire.
    pub fn ignite(&mut self)
        ensures
            final(self).attributes == old(self).attributes.with_on_fire_spec(),
            final(self).team == old(self).team,
            final(self).kind == old(self).kind,
            final(self).retreating == old(self).retreating,
            final(self).blind == old(self).blind,
    {
        self.attributes = self.attributes.with_on_fire();
    }
}

/// The whole-number part of a soldier entering battle: the effects its body
/// resists, its defense in thirds of the base defense, its kind of body, its
/// pace and slowed pace in quarters of its kind's paces, and the soldier.
#[derive(Clone, Copy, Debug)]
pub struct SpawnProfile {
    pub defense_modifiers: DamageModifiers,
    pub defense_thirds: u32,
    pub defense_kind: DefenseKind,
    pub speed_quarters: u32,
    pub speed_slow_quarters: u32,
    pub unit: Unit,
}

/// The soldier of kind `kind` that `team` sends into battle under
/// `modifiers`, when the blindness roll came out as `blind_roll`: fire, ice
/// and wet pass on to its body; extra defense triples its defense; extra speed
/// triples its pace and makes its slowed pace one and a half times as fast;
/// slowness halves both; under blindness it is blind on a true roll.
pub open spec fn profile_of(team: Team, kind: UnitKind, modifiers: BattleModifiers, blind_roll: bool) -> SpawnProfile {
    let extra = modifiers.has(BattleModifier::ExtraSpeed);
    let slow = modifiers.has(BattleModifier::Slowness);
    SpawnProfile {
        defense_modifiers: DamageModifiers {
            fire: modifiers.has(BattleModifier::Fire),
            ice: modifiers.has(BattleModifier::Ice),
            wet: modifiers.has(BattleModifier::Wet),
        },
        defense_thirds: if modifiers.has(BattleModifier::ExtraDefense) { 9 } else { 3 },
        defense_kind: unit_defense(kind),
        speed_quarters: if extra && slow {
            6
        } else if extra {
            12
        } else if slow {
            2
        } else {
            4
        },
        speed_slow_quarters: if extra && slow {
            3
        } else if extra {
            6
        } else if slow {
            2
        } else {
            4
        },
        unit: Unit {
            team,
            kind,
            retreating: false,
            blind: modifiers.has(BattleModifier::Blindness) && blind_roll,
            attributes: unit_attributes(kind),
        },
    }
}

/// The soldier a side sends into battle (see `profile_of`), given how the
/// blindness roll came out.
pub fn spawn_profile(team: Team, kind: UnitKind, modifiers: &BattleModifiers, blind_roll: bool) -> (r: SpawnProfile)
    ensures
        r == profile_of(team, kind, *modifiers, blind_roll),
{
    let stats = kind.stats();
    let extra = modifiers.get(BattleModifier::ExtraSpeed);
    let slow = modifiers.get(BattleModifier::Slowness);
    SpawnProfile {
        defense_modifiers: DamageModifiers {
            fire: modifiers.get(BattleModifier::Fire),
            ice: modifiers.get(BattleModifier::Ice),
            wet: modifiers.get(BattleModifier::Wet),
        },
        defense_thirds: if modifiers.get(BattleModifier::ExtraDefense) { 9 } else { 3 },
        defense_kind: stats.defense_kind,
        speed_quarters: if extra && slow {
            6
        } else if extra {
            12
        } else if slow {
            2
        } else {
            4
        },
        speed_slow_quarters: if extra && slow {
            3
        } else if extra {
            6
        } else if slow {
            2
        } else {
            4
        },
        unit: Unit {
            team,
            kind,
            retreating: false,
            blind: modifiers.get(BattleModifier::Blindness) && blind_roll,
            attributes: stats.attributes,
        },
    }
}

/// The soldier a side sends into battle: under blindness it is blind one time
/// in two (see `spawn_profile`).
pub fn spawn_unit_profile(team: Team, kind: UnitKind, modifiers: &BattleModifiers) -> (r: SpawnProfile)
    ensures
        exists|roll: bool| r == profile_of(team, kind, *modifiers, roll),
        !modifiers.has(BattleModifier::Blindness) ==> r == profile_of(team, kind, *modifiers, false),
{
    let roll = if modifiers.get(BattleModifier::Blindness) {
        gen_ratio(1, 2)
    } else {
        false
    };
    spawn_profile(team, kind, modifiers, roll)
}

/// How fast a side swings: half speed when slowed without quick attack,
/// double speed with quick attack and no slowness, normal otherwise.
#[derive(Clone, Copy, Debug, PartialEq, Eq, Structural)]
pub enum AttackPace {
    Half,
    Normal,
    Double,
}

/// How fast a side swings (see `AttackPace`).
pub fn attack_pace(modifiers: &BattleModifiers) -> (r: AttackPace)
    ensures
        r == (if modifiers.has(BattleModifier::Slowness) && !modifiers.has(BattleModifier::QuickAttack) {
            AttackPace::Half
        } else if !modifiers.has(BattleModifier::Slowness) && modifiers.has(BattleModifier::QuickAttack) {
            AttackPace::Double
        } else {
            AttackPace::Normal
        }),
{
    let slowness = modifiers.get(BattleModifier::Slowness);
    let quick_attack = modifiers.get(BattleModifier::QuickAttack);
    if slowness && !quick_attack {
        AttackPace::Half
    } else if !slowness && quick_attack {
        AttackPace::Double
    } else {
        AttackPace::Normal
    }
}

/// Whether soldiers play their walking animation: once the opening splash is
/// over.
pub fn walks(phase: BattlePhase) -> (r: bool)
    ensures
        r == (phase != BattlePhase::PreBattle),
{
    phase != BattlePhase::PreBattle
}

/// Whether a soldier plays its attack animation: while the fight is on, it
/// can attack and feels an enemy in reach; a blind soldier always swings.
pub fn swings(unit: &Unit, feeling: bool, phase: BattlePhase) -> (r: bool)
    ensures
        r == ((!unit.retreating && feeling && phase == BattlePhase::Battling) || unit.blind),
{
    (unit.can_attack() && feeling && phase == BattlePhase::Battling) || unit.blind
}

/// The soldiers of `team` that can catch fire: those of the team not yet on
/// fire, by their position in `units`.
pub open spec fn combustible(units: Seq<Unit>, team: Team) -> Seq<int>
    decreases units.len(),
{
    if units.len() == 0 {
        Seq::empty()
    } else {
        let rest = combustible(units.drop_last(), team);
        let u = units.last();
        if u.team == team && !u.attributes.on_fire {
            rest.push(units.len() - 1)
        } else {
            rest
        }
    }
}

/// The positions of the soldiers of `team` that can catch fire (see
/// `combustible`).
pub fn combustion_candidates(units: &Vec<Unit>, team: Team) -> (r: Vec<usize>)
    ensures
        r@.map_values(|i: usize| i as int) == combustible(units@, team),
{
    let mut r: Vec<usize> = Vec::new();
    let mut i: usize = 0;
    while i < units.len()
        invariant
            i <= units@.len(),
            r@.map_values(|x: usize| x as int) == combustible(units@.take(i as int), team),
        decreases units.len() - i,
    {
        assert(units@.take(i + 1).drop_last() =~= units@.take(i as int));
        let ghost before = r@;
        if units[i].team == team && !units[i].attributes.on_fire {
            r.push(i);
            assert(r@.map_values(|x: usize| x as int) =~= before.map_values(|x: usize| x as int).push(i as int));
        }
        i = i + 1;
    }
    assert(units@.take(i as int) =~= units@);
    r
}

} // verus!
