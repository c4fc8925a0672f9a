use vstd::prelude::*;

use rand::seq::SliceRandom;

use crate::flags::{Attributes, DamageFlags};
use crate::items::{BattleModifier, BattleModifiers};
use crate::team::Team;
use crate::units::{
    attack_damage_kind, attack_hit_count, attack_hurt_box_kind, all_unit_kinds, kind_at,
    Attack, DamageKind, HurtBoxKind, UnitComposition, UnitKind,
};

verus! {

/// The banner a side marches under.
#[derive(Clone, Copy, Debug, PartialEq, Eq, Structural)]
pub enum Banner {
    Player,
    WarChef1,
    WarChef2,
    WarChef3,
    WarChef4,
    WarChef5,
}

/// The banner of the war chef `war_chef` (counted from 0); the fifth war
/// chef's banner from there on.
pub open spec fn war_chef_banner(war_chef: int) -> Banner {
    if war_chef == 0 {
        Banner::WarChef1
    } else if war_chef == 1 {
        Banner::WarChef2
    } else if war_chef == 2 {
        Banner::WarChef3
    } else if war_chef == 3 {
        Banner::WarChef4
    } else {
        Banner::WarChef5
    }
}

impl Banner {
    /// The banner of the war chef `war_chef` (counted from 0).
    pub fn for_war_chef(war_chef: usize) -> (r: Banner)
        ensures
            r == war_chef_banner(war_chef as int),
    {
        match war_chef {
            0 => Banner::WarChef1,
            1 => Banner::WarChef2,
            2 => Banner::WarChef3,
            3 => Banner::WarChef4,
            _ => Banner::WarChef5,
        }
    }
}

impl Default for Banner {
    fn default() -> (r: Banner)
        ensures
            r == Banner::Player,
    {
        Banner::Player
    }
}

/// The stages of a battle: the opening splash, the fighting, the closing
/// splash with its outcome, and the results.
#[derive(Clone, Copy, Debug, PartialEq, Eq, Structural)]
pub enum BattlePhase {
    PreBattle,
    Battling,
    End { victory: bool },
    Results,
}

/// What a finished battle reports: the friendly units that died, and whether
/// it was won.
#[derive(Clone, Copy, Debug)]
pub struct BattleReport {
    pub dead_units: UnitComposition,
    pub victory: bool,
}

impl BattleReport {
    /// A report with no death and no victory.
    pub fn new() -> (r: BattleReport)
        ensures
            forall|k: UnitKind| r.dead_units.count(k) == 0,
            !r.victory,
    {
        BattleReport { dead_units: UnitComposition::empty(), victory: false }
    }
}

impl Default for BattleReport {
    fn default() -> (r: BattleReport)
        ensures
            forall|k: UnitKind| r.dead_units.count(k) == 0,
            !r.victory,
    {
        BattleReport::new()
    }
}

/// The two armies of a battle, with the modifiers and banners they fight
/// under.
#[derive(Clone, Copy, Debug)]
pub struct BattleConfig {
    pub friendly_units: UnitComposition,
    pub friendly_modifiers: BattleModifiers,
    pub friendly_banner: Banner,
    pub enemy_units: UnitComposition,
    pub enemy_modifiers: BattleModifiers,
    pub enemy_banner: Banner,
}

impl BattleConfig {
    /// Two empty armies under the player's banner with no modifier.
    pub fn new() -> (r: BattleConfig)
        ensures
            forall|k: UnitKind| r.friendly_units.count(k) == 0 && r.enemy_units.count(k) == 0,
            forall|m: BattleModifier| !r.friendly_modifiers.has(m) && !r.enemy_modifiers.has(m),
            r.friendly_banner == Banner::Player,
            r.enemy_banner == Banner::Player,
    {
        BattleConfig {
            friendly_units: UnitComposition::empty(),
            friendly_modifiers: BattleModifiers::new(),
            friendly_banner: Banner::Player,
            enemy_units: UnitComposition::empty(),
            enemy_modifiers: BattleModifiers::new(),
            enemy_banner: Banner::Player,
        }
    }

    /// The army of `team`.
    pub fn get_units(&self, team: Team) -> (r: &UnitComposition)
        ensures
            *r == (if team == Team::Friendly { self.friendly_units } else { self.enemy_units }),
    {
        match team {
            Team::Friendly => &self.friendly_units,
            Team::Enemy => &self.enemy_units,
        }
    }
}

impl Default for BattleConfig {
    fn default() -> (r: BattleConfig)
        ensures
            forall|k: UnitKind| r.friendly_units.count(k) == 0 && r.enemy_units.count(k) == 0,
            forall|m: BattleModifier| !r.friendly_modifiers.has(m) && !r.enemy_modifiers.has(m),
            r.friendly_banner == Banner::Player,
            r.enemy_banner == Banner::Player,
    {
        BattleConfig::new()
    }
}

/// A battle is won when the enemy has no brute left standing and more
/// friendly units than enemy units are still fighting.
pub open spec fn is_victory(friendly_count: nat, enemy_count: nat, enemy_has_brute: bool) -> bool {
    !enemy_has_brute && friendly_count > enemy_count
}

/// The whole-number state of a battle: whether one is running, its stage,
/// the report being gathered, whether any damage was dealt, and the
/// modifiers of both sides. The timers that decide when it ends are real
/// numbers and live with the game loop.
#[derive(Debug)]
pub struct BattleState {
    battling: bool,
    phase: BattlePhase,
    report: BattleReport,
    damage_inflicted: bool,
    friendly_modifiers: BattleModifiers,
    enemy_modifiers: BattleModifiers,
}

impl BattleState {
    /// No battle running: before the opening splash, an empty report, no
    /// damage dealt and no modifier on either side.
    pub fn new() -> (r: BattleState)
        ensures
            !r.battling_spec(),
            r.phase_spec() == BattlePhase::PreBattle,
            forall|k: UnitKind| r.report_spec().dead_units.count(k) == 0,
            !r.report_spec().victory,
            !r.damage_inflicted_spec(),
            forall|t: Team, m: BattleModifier| !#[trigger] r.modifiers_spec(t).has(m),
    {
        BattleState {
            battling: false,
            phase: BattlePhase::PreBattle,
            report: BattleReport::new(),
            damage_inflicted: false,
            friendly_modifiers: BattleModifiers::new(),
            enemy_modifiers: BattleModifiers::new(),
        }
    }

    /// Whether a battle is running.
    pub closed spec fn battling_spec(&self) -> bool {
        self.battling
    }

    /// The stage of the battle.
    pub closed spec fn phase_spec(&self) -> BattlePhase {
        self.phase
    }

    /// The report gathered so far.
    pub closed spec fn report_spec(&self) -> BattleReport {
        self.report
    }

    /// Whether any damage was dealt.
    pub closed spec fn damage_inflicted_spec(&self) -> bool {
        self.damage_inflicted
    }

    /// The modifiers of `team`.
    pub closed spec fn modifiers_spec(&self, team: Team) -> BattleModifiers {
        if team == Team::Friendly {
            self.friendly_modifiers
        } else {
            self.enemy_modifiers
        }
    }

    /// Starts the battle `config`: a fresh state, running, with the sides'
    /// modifiers; a sandbox battle skips the opening splash.
    pub fn start(&mut self, config: &BattleConfig, sandbox: bool)
        ensures
            final(self).battling_spec(),
            final(self).phase_spec() == (if sandbox { BattlePhase::Battling } else { BattlePhase::PreBattle }),
            forall|k: UnitKind| final(self).report_spec().dead_units.count(k) == 0,
            !final(self).report_spec().victory,
            !final(self).damage_inflicted_spec(),
            final(self).modifiers_spec(Team::Friendly) == config.friendly_modifiers,
            final(self).modifiers_spec(Team::Enemy) == config.enemy_modifiers,
    {
        *self = BattleState::new();
        self.battling = true;
        self.friendly_modifiers = config.friendly_modifiers;
        self.enemy_modifiers = config.enemy_modifiers;
        if sandbox {
            self.phase = BattlePhase::Battling;
        }
    }

    /// Stops the battle.
    pub fn stop(&mut self)
        ensures
            !final(self).battling_spec(),
            final(self).phase_spec() == old(self).phase_spec(),
            final(self).report_spec() == old(self).report_spec(),
            final(self).damage_inflicted_spec() == old(self).damage_inflicted_spec(),
            forall|t: Team| final(self).modifiers_spec(t) == old(self).modifiers_spec(t),
    {
        self.battling = false;
    }

    /// Whether a battle is running.
    pub fn battling(&self) -> (r: bool)
        ensures
            r == self.battling_spec(),
    {
        self.battling
    }

    /// The stage of the battle.
    pub fn phase(&self) -> (r: BattlePhase)
        ensures
            r == self.phase_spec(),
    {
        self.phase
    }

    /// The report gathered so far.
    pub fn report(&self) -> (r: BattleReport)
        ensures
            r == self.report_spec(),
    {
        self.report
    }

    /// Whether any damage was dealt.
    pub fn damage_inflicted(&self) -> (r: bool)
        ensures
            r == self.damage_inflicted_spec(),
    {
        self.damage_inflicted
    }

    /// The modifiers of `team`.
    pub fn get_modifiers(&self, team: Team) -> (r: &BattleModifiers)
        ensures
            *r == self.modifiers_spec(team),
    {
        match team {
            Team::Friendly => &self.friendly_modifiers,
            Team::Enemy => &self.enemy_modifiers,
        }
    }

    /// Notes that damage was dealt.
    pub fn note_damage(&mut self)
        ensures
            final(self).damage_inflicted_spec(),
            final(self).battling_spec() == old(self).battling_spec(),
            final(self).phase_spec() == old(self).phase_spec(),
            final(self).report_spec() == old(self).report_spec(),
            forall|t: Team| final(self).modifiers_spec(t) == old(self).modifiers_spec(t),
    {
        self.damage_inflicted = true;
    }

    /// Counts a unit of `team` and kind `kind` that died; only friendly deaths
    /// go into the report, and only while the battle runs.
    pub fn record_death(&mut self, team: Team, kind: UnitKind)
        requires
            old(self).report_spec().dead_units.count(kind) < usize::MAX,
        ensures
            forall|k: UnitKind|
                final(self).report_spec().dead_units.count(k) == old(self).report_spec().dead_units.count(k)
                    + (if old(self).battling_spec() && team == Team::Friendly && k == kind { 1nat } else { 0nat }),
            final(self).report_spec().victory == old(self).report_spec().victory,
            final(self).battling_spec() == old(self).battling_spec(),
            final(self).phase_spec() == old(self).phase_spec(),
            final(self).damage_inflicted_spec() == old(self).damage_inflicted_spec(),
            forall|t: Team| final(self).modifiers_spec(t) == old(self).modifiers_spec(t),
    {
        if self.battling && team == Team::Friendly {
            let c = self.report.dead_units.get_count(kind);
            self.report.dead_units.set_count(kind, c + 1);
        }
    }

    /// Ends a running fight: the battle is won as `is_victory` says, and the
    /// outcome goes into the report and the stage. Outside the fighting stage
    /// nothing changes and `None` comes back.
    pub fn finish(&mut self, friendly_count: usize, enemy_count: usize, enemy_has_brute: bool) -> (r: Option<bool>)
        ensures
            old(self).phase_spec() == BattlePhase::Battling ==> {
                &&& r == Some(is_victory(friendly_count as nat, enemy_count as nat, enemy_has_brute))
                &&& final(self).phase_spec() == (BattlePhase::End { victory: r.unwrap() })
                &&& final(self).report_spec().victory == r.unwrap()
                &&& final(self).report_spec().dead_units == old(self).report_spec().dead_units
            },
            old(self).phase_spec() != BattlePhase::Battling ==> r is None && final(self).phase_spec()
                == old(self).phase_spec() && final(self).report_spec() == old(self).report_spec(),
            final(self).battling_spec() == old(self).battling_spec(),
            final(self).damage_inflicted_spec() == old(self).damage_inflicted_spec(),
            forall|t: Team| final(self).modifiers_spec(t) == old(self).modifiers_spec(t),
    {
        if self.phase != BattlePhase::Battling {
            return None;
        }
        let victory = !enemy_has_brute && friendly_count > enemy_count;
        self.report.victory = victory;
        self.phase = BattlePhase::End { victory };
        Some(victory)
    }

    /// A splash animation ended: after the opening splash the fighting
    /// starts; after the closing splash the battle stops and its report is
    /// handed over (the state keeps an empty report). Otherwise nothing
    /// changes.
    pub fn splash_ended(&mut self) -> (r: Option<BattleReport>)
        ensures
            old(self).phase_spec() == BattlePhase::PreBattle ==> r is None && final(self).phase_spec()
                == BattlePhase::Battling && final(self).battling_spec() == old(self).battling_spec()
                && final(self).report_spec() == old(self).report_spec(),
            old(self).phase_spec() is End ==> r == Some(old(self).report_spec()) && !final(self).battling_spec()
                && final(self).phase_spec() == old(self).phase_spec() && (forall|k: UnitKind|
                final(self).report_spec().dead_units.count(k) == 0) && !final(self).report_spec().victory,
            !(old(self).phase_spec() == BattlePhase::PreBattle || old(self).phase_spec() is End) ==> r is None
                && final(self).phase_spec() == old(self).phase_spec() && final(self).battling_spec()
                == old(self).battling_spec() && final(self).report_spec() == old(self).report_spec(),
            final(self).damage_inflicted_spec() == old(self).damage_inflicted_spec(),
            forall|t: Team| final(self).modifiers_spec(t) == old(self).modifiers_spec(t),
    {
        match self.phase {
            BattlePhase::PreBattle => {
                self.phase = BattlePhase::Battling;
                None
            },
            BattlePhase::End { .. } => {
                let report = self.report;
                self.report = BattleReport::new();
                self.battling = false;
                Some(report)
            },
            _ => None,
        }
    }
}

impl Default for BattleState {
    fn default() -> (r: BattleState)
        ensures
            !r.battling_spec(),
            r.phase_spec() == BattlePhase::PreBattle,
            forall|k: UnitKind| r.report_spec().dead_units.count(k) == 0,
            !r.report_spec().victory,
            !r.damage_inflicted_spec(),
            forall|t: Team, m: BattleModifier| !#[trigger] r.modifiers_spec(t).has(m),
    {
        BattleState::new()
    }
}

/// How many units are still fighting on each side, and whether a brute is
/// among the enemy's: the units are given by their team, kind and whether
/// they are retreating.
pub open spec fn side_counts(units: Seq<(Team, UnitKind, bool)>) -> (nat, nat, bool)
    decreases units.len(),
{
    if units.len() == 0 {
        (0, 0, false)
    } else {
        let (f, e, b) = side_counts(units.drop_last());
        let (team, kind, retreating) = units.last();
        if retreating {
            (f, e, b)
        } else if team == Team::Friendly {
            (f + 1, e, b)
        } else {
            (f, e + 1, b || kind == UnitKind::Brute)
        }
    }
}

/// Counts the units still fighting on each side, and whether a brute is among
/// the enemy's.
pub fn count_sides(units: &Vec<(Team, UnitKind, bool)>) -> (r: (usize, usize, bool))
    ensures
        (r.0 as nat, r.1 as nat, r.2) == side_counts(units@),
{
    let mut f: usize = 0;
    let mut e: usize = 0;
    let mut b = false;
    let mut i: usize = 0;
    while i < units.len()
        invariant
            i <= units@.len(),
            (f as nat, e as nat, b) == side_counts(units@.take(i as int)),
            f + e <= i,
        decreases units.len() - i,
    {
        assert(units@.take(i + 1).drop_last() =~= units@.take(i as int));
        let (team, kind, retreating) = units[i];
        if !retreating {
            if team == Team::Friendly {
                f = f + 1;
            } else {
                e = e + 1;
                if kind == UnitKind::Brute {
                    b = true;
                }
            }
        }
        i = i + 1;
    }
    assert(units@.take(i as int) =~= units@);
    (f, e, b)
}

/// The units a battle spawns, in order: the friendly army then the enemy's,
/// each kind by kind in the order peasants, warriors, archers, mages, brutes.
pub open spec fn spawn_list(config: BattleConfig) -> Seq<(Team, UnitKind)> {
    army_spawns(Team::Friendly, config.friendly_units, 5) + army_spawns(Team::Enemy, config.enemy_units, 5)
}

/// The spawns of the first `kinds` kinds of an army.
pub open spec fn army_spawns(team: Team, units: UnitComposition, kinds: nat) -> Seq<(Team, UnitKind)>
    decreases kinds,
{
    if kinds == 0 {
        Seq::empty()
    } else {
        let k = kind_at(kinds - 1);
        army_spawns(team, units, (kinds - 1) as nat) + Seq::new(units.count(k), |j: int| (team, k))
    }
}

/// The units a battle spawns, one entry per unit (see `spawn_list`); the
/// places they spawn at are drawn by the game loop.
pub fn spawn_order(config: &BattleConfig) -> (r: Vec<(Team, UnitKind)>)
    ensures
        r@ == spawn_list(*config),
{
    let mut r: Vec<(Team, UnitKind)> = Vec::new();
    push_army(&mut r, Team::Friendly, &config.friendly_units);
    push_army(&mut r, Team::Enemy, &config.enemy_units);
    r
}

/// Appends the spawns of one army.
fn push_army(r: &mut Vec<(Team, UnitKind)>, team: Team, units: &UnitComposition)
    ensures
        final(r)@ == old(r)@ + army_spawns(team, *units, 5),
{
    let kinds = all_unit_kinds();
    let ghost start = r@;
    let mut i: usize = 0;
    while i < 5
        invariant
            kinds.len() == 5,
            forall|j: int| 0 <= j < 5 ==> #[trigger] kinds@[j] == kind_at(j),
            i <= 5,
            r@ == start + army_spawns(team, *units, i as nat),
        decreases 5 - i,
    {
        let kind = kinds[i];
        let n = units.get_count(kind);
        let ghost before = r@;
        let mut j: usize = 0;
        while j < n
            invariant
                j <= n,
                n == units.count(kind),
                r@ == before + Seq::new(j as nat, |x: int| (team, kind)),
            decreases n - j,
        {
            r.push((team, kind));
            assert(r@ =~= before + Seq::new((j + 1) as nat, |x: int| (team, kind)));
            j = j + 1;
        }
        assert(army_spawns(team, *units, (i + 1) as nat) == army_spawns(team, *units, i as nat)
            + Seq::new(units.count(kind_at(i as int)), |x: int| (team, kind_at(i as int))));
        assert(r@ =~= start + army_spawns(team, *units, (i + 1) as nat));
        i = i + 1;
    }
}

/// The damage effects an attack carries.
#[derive(Clone, Copy, Debug, PartialEq, Eq, Structural)]
pub struct DamageModifiers {
    pub fire: bool,
    pub ice: bool,
    pub wet: bool,
}

/// The whole-number part of an attack about to be made: whom it may hurt,
/// its damage in halves of the attack's base damage, the effects it carries,
/// how many targets it may hit, its kind of damage and how it reaches its
/// targets.
#[derive(Clone, Copy, Debug)]
pub struct AttackPlan {
    pub hurt_flags: DamageFlags,
    pub damage_halves: u32,
    pub damage_modifiers: DamageModifiers,
    pub max_hits: usize,
    pub damage_kind: DamageKind,
    pub hurt_box_kind: HurtBoxKind,
}

/// Whether an attacker may hit its own side: friendly fire on its side, or an
/// attacker that may fire on friends.
pub open spec fn may_friendly_fire(modifiers: BattleModifiers, attributes: Attributes) -> bool {
    modifiers.has(BattleModifier::FriendlyFire) || attributes.may_friendly_fire
}

/// The attack a unit of `team` with `attributes` makes with `attack` under
/// `modifiers`, when the friendly-fire roll came out as `roll`.
pub open spec fn plan_of(team: Team, attributes: Attributes, modifiers: BattleModifiers, attack: Attack, roll: bool) -> AttackPlan {
    let ff = may_friendly_fire(modifiers, attributes) && roll;
    AttackPlan {
        hurt_flags: DamageFlags {
            friendly: team.hurt_flags_spec().friendly || (ff && team.hit_flags_spec().friendly),
            enemy: team.hurt_flags_spec().enemy || (ff && team.hit_flags_spec().enemy),
        },
        damage_halves: if modifiers.has(BattleModifier::ExtraAttack) { 3 } else { 2 },
        damage_modifiers: DamageModifiers {
            fire: modifiers.has(BattleModifier::Fire),
            ice: modifiers.has(BattleModifier::Ice),
            wet: modifiers.has(BattleModifier::Wet),
        },
        max_hits: attack_hit_count(attack) as usize,
        damage_kind: attack_damage_kind(attack),
        hurt_box_kind: attack_hurt_box_kind(attack),
    }
}

/// The attack a unit makes (see `plan_of`), given how the friendly-fire roll
/// came out: extra attack makes the damage one and a half times as much; fire,
/// ice and wet pass on as damage effects; on a friendly-fire roll the attack
/// may also hurt the attacker's own side.
pub fn attack_plan(team: Team, attributes: Attributes, modifiers: &BattleModifiers, attack: Attack, friendly_fire_roll: bool) -> (r: AttackPlan)
    ensures
        r == plan_of(team, attributes, *modifiers, attack, friendly_fire_roll),
{
    let ff = (modifiers.get(BattleModifier::FriendlyFire) || attributes.may_friendly_fire) && friendly_fire_roll;
    let mut hurt_flags = team.hurt_flags();
    if ff {
        hurt_flags = hurt_flags.union(team.hit_flags());
    }
    let stats = attack.stats();
    AttackPlan {
        hurt_flags,
        damage_halves: if modifiers.get(BattleModifier::ExtraAttack) { 3 } else { 2 },
        damage_modifiers: DamageModifiers {
            fire: modifiers.get(BattleModifier::Fire),
            ice: modifiers.get(BattleModifier::Ice),
            wet: modifiers.get(BattleModifier::Wet),
        },
        max_hits: stats.hit_count,
        damage_kind: stats.damage_kind,
        hurt_box_kind: stats.hurt_box_kind,
    }
}

/// `rand::Rng::gen_ratio(numerator, denominator)` on the thread's random
/// number generator: true with a chance of `numerator` in `denominator`.
/// Nothing is stated of which value comes back. The call panics unless
/// `0 < denominator` and `numerator <= denominator`, so those are required.
#[verifier::external_body]
pub(crate) fn gen_ratio(numerator: u32, denominator: u32) -> (r: bool)
    requires
        0 < denominator,
        numerator <= denominator,
{
    rand::Rng::gen_ratio(&mut rand::thread_rng(), numerator, denominator)
}

/// The attack a unit makes: a unit that may fire on friends does so one time
/// in four (see `attack_plan`).
pub fn unit_attack_plan(team: Team, attributes: Attributes, modifiers: &BattleModifiers, attack: Attack) -> (r: AttackPlan)
    ensures
        exists|roll: bool| r == plan_of(team, attributes, *modifiers, attack, roll),
        !may_friendly_fire(*modifiers, attributes) ==> r == plan_of(team, attributes, *modifiers, attack, false),
{
    let roll = if modifiers.get(BattleModifier::FriendlyFire) || attributes.may_friendly_fire {
        gen_ratio(1, 4)
    } else {
        false
    };
    attack_plan(team, attributes, modifiers, attack, roll)
}

/// The targets a hurt box hits, from the candidates in the order they were
/// shuffled: as many of the first as it has hits left, with the hits left
/// over.
pub open spec fn hits_of(max_hits: nat, shuffled: Seq<u64>) -> (Seq<u64>, nat) {
    if max_hits >= shuffled.len() {
        (shuffled, (max_hits - shuffled.len()) as nat)
    } else {
        (shuffled.take(max_hits as int), 0)
    }
}

/// Takes the targets a hurt box hits from the shuffled candidates (see
/// `hits_of`).
pub fn take_hits(max_hits: usize, shuffled: &Vec<u64>) -> (r: (Vec<u64>, usize))
    ensures
        (r.0@, r.1 as nat) == hits_of(max_hits as nat, shuffled@),
{
    let mut hit: Vec<u64> = Vec::new();
    let mut left = max_hits;
    let mut i: usize = 0;
    while i < shuffled.len() && left > 0
        invariant
            i <= shuffled@.len(),
            hit@ == shuffled@.take(i as int),
            left == max_hits - i,
            i <= max_hits,
        decreases shuffled.len() - i,
    {
        hit.push(shuffled[i]);
        assert(shuffled@.take(i + 1) =~= shuffled@.take(i as int).push(shuffled@[i as int]));
        left = left - 1;
        i = i + 1;
    }
    if i == shuffled.len() {
        assert(shuffled@.take(i as int) =~= shuffled@);
    }
    (hit, left)
}

/// `rand::seq::SliceRandom::shuffle` on the thread's random number generator:
/// the same candidates in a random order.
#[verifier::external_body]
fn shuffle_ids(v: &mut Vec<u64>)
    ensures
        final(v)@.to_multiset() == old(v)@.to_multiset(),
{
    v.shuffle(&mut rand::thread_rng());
}

/// The targets a hurt box with `max_hits` hits left hits among the
/// candidates, which it takes in a random order, with the hits left over:
/// every target hit is a candidate, and it hits as many as it can.
pub fn distribute_hits(max_hits: usize, candidates: Vec<u64>) -> (r: (Vec<u64>, usize))
    ensures
        exists|shuffled: Seq<u64>|
            shuffled.to_multiset() == candidates@.to_multiset() && (r.0@, r.1 as nat) == hits_of(
                max_hits as nat,
                shuffled,
            ),
{
    let mut c = candidates;
    shuffle_ids(&mut c);
    take_hits(max_hits, &c)
}

} // verus!
