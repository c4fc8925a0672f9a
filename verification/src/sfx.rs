use vstd::prelude::*;

use crate::app_state::{game_screen, AppState};

verus! {

/// The sound effects of the game.
#[derive(Clone, Copy, Debug, PartialEq, Eq, Structural)]
pub enum SfxKind {
    CutsceneTextAppear,
    CutsceneProceed,
    UiButtonClick,
    UiButtonHover,
    UiButtonRelease,
    UiButtonConfirm,
    UiFeedUnit,
    DialogueShow,
    DialogueHide,
    DialogueSkipText,
    DialogueProceed,
    DialogueCharacter,
    DialogueChoiceHover,
    DialogueChoiceSelect,
    CauldronAddSpice,
    LootGet,
    Mayhem,
    JingleStart,
    JingleVictory,
    JingleDefeat,
}

/// The jingles the music plays over a battle.
#[derive(Clone, Copy, Debug, PartialEq, Eq, Structural)]
pub enum BattleJingleEvent {
    Start,
    Victory,
    Defeat,
}

/// The jingle a sound effect starts, for the three jingle sounds.
pub open spec fn jingle_of(kind: SfxKind) -> Option<BattleJingleEvent> {
    match kind {
        SfxKind::JingleStart => Some(BattleJingleEvent::Start),
        SfxKind::JingleVictory => Some(BattleJingleEvent::Victory),
        SfxKind::JingleDefeat => Some(BattleJingleEvent::Defeat),
        _ => None,
    }
}

impl SfxKind {
    /// The jingle this sound effect starts, if it is a jingle.
    pub fn jingle(&self) -> (r: Option<BattleJingleEvent>)
        ensures
            r == jingle_of(*self),
    {
        match self {
            SfxKind::JingleStart => Some(BattleJingleEvent::Start),
            SfxKind::JingleVictory => Some(BattleJingleEvent::Victory),
            SfxKind::JingleDefeat => Some(BattleJingleEvent::Defeat),
            _ => None,
        }
    }

    /// Every sound effect, in declaration order.
    pub fn all() -> (r: Vec<SfxKind>)
        ensures
            r@.len() == 20,
            forall|k: SfxKind| r@.contains(k),
    {
        let r = vec![
            SfxKind::CutsceneTextAppear,
            SfxKind::CutsceneProceed,
            SfxKind::UiButtonClick,
            SfxKind::UiButtonHover,
            SfxKind::UiButtonRelease,
            SfxKind::UiButtonConfirm,
            SfxKind::UiFeedUnit,
            SfxKind::DialogueShow,
            SfxKind::DialogueHide,
            SfxKind::DialogueSkipText,
            SfxKind::DialogueProceed,
            SfxKind::DialogueCharacter,
            SfxKind::DialogueChoiceHover,
            SfxKind::DialogueChoiceSelect,
            SfxKind::CauldronAddSpice,
            SfxKind::LootGet,
            SfxKind::Mayhem,
            SfxKind::JingleStart,
            SfxKind::JingleVictory,
            SfxKind::JingleDefeat,
        ];
        assert forall|k: SfxKind| r@.contains(k) by {
            match k {
                SfxKind::CutsceneTextAppear => assert(r@[0] == k),
                SfxKind::CutsceneProceed => assert(r@[1] == k),
                SfxKind::UiButtonClick => assert(r@[2] == k),
                SfxKind::UiButtonHover => assert(r@[3] == k),
                SfxKind::UiButtonRelease => assert(r@[4] == k),
                SfxKind::UiButtonConfirm => assert(r@[5] == k),
                SfxKind::UiFeedUnit => assert(r@[6] == k),
                SfxKind::DialogueShow => assert(r@[7] == k),
                SfxKind::DialogueHide => assert(r@[8] == k),
                SfxKind::DialogueSkipText => assert(r@[9] == k),
                SfxKind::DialogueProceed => assert(r@[10] == k),
                SfxKind::DialogueCharacter => assert(r@[11] == k),
                SfxKind::DialogueChoiceHover => assert(r@[12] == k),
                SfxKind::DialogueChoiceSelect => assert(r@[13] == k),
                SfxKind::CauldronAddSpice => assert(r@[14] == k),
                SfxKind::LootGet => assert(r@[15] == k),
                SfxKind::Mayhem => assert(r@[16] == k),
                SfxKind::JingleStart => assert(r@[17] == k),
                SfxKind::JingleVictory => assert(r@[18] == k),
                SfxKind::JingleDefeat => assert(r@[19] == k),
            }
        }
        r
    }
}

impl BattleJingleEvent {
    /// How many seconds the music stays quiet for this jingle.
    pub fn quiet_seconds(&self) -> (r: u32)
        ensures
            r == (if *self == BattleJingleEvent::Start { 2u32 } else { 5u32 }),
    {
        match self {
            BattleJingleEvent::Start => 2,
            BattleJingleEvent::Victory => 5,
            BattleJingleEvent::Defeat => 5,
        }
    }
}

/// What the music aims for on a screen: whether the tracks play at all,
/// whether the battle track takes over from the planning track, whether it is
/// muffled and slowed (on the rewind screen), and which ambient loops sound.
#[derive(Clone, Copy, Debug, PartialEq, Eq, Structural)]
pub struct MusicCues {
    pub tracks_play: bool,
    pub battle_track: bool,
    pub muffled: bool,
    pub ambient_cauldron: bool,
    pub ambient_battle: bool,
}

/// The music cues of a screen: the tracks play during a game, the battle
/// track on the battle screen, muffled on the rewind screen; the cauldron
/// bubbles between battles and while planning, and the battle ambience sounds
/// on the main menu and in battle.
pub open spec fn cues_of(state: AppState) -> MusicCues {
    MusicCues {
        tracks_play: game_screen(state),
        battle_track: state == AppState::GameBattle,
        muffled: state == AppState::GameRewind,
        ambient_cauldron: state == AppState::GameIntermission || state == AppState::GamePlanning,
        ambient_battle: state == AppState::MainMenu || state == AppState::GameBattle,
    }
}

/// The music cues of a screen (see `cues_of`).
pub fn music_cues(state: AppState) -> (r: MusicCues)
    ensures
        r == cues_of(state),
{
    MusicCues {
        tracks_play: state.is_game_state(),
        battle_track: state == AppState::GameBattle,
        muffled: state == AppState::GameRewind,
        ambient_cauldron: state == AppState::GameIntermission || state == AppState::GamePlanning,
        ambient_battle: state == AppState::MainMenu || state == AppState::GameBattle,
    }
}

/// The sound effects asked for since they were last played, oldest first.
#[derive(Debug)]
pub struct Sfx {
    queue: Vec<SfxKind>,
}

impl View for Sfx {
    type V = Seq<SfxKind>;

    closed spec fn view(&self) -> Seq<SfxKind> {
        self.queue@
    }
}

impl Sfx {
    /// Nothing asked for.
    pub fn new() -> (r: Sfx)
        ensures
            r@.len() == 0,
    {
        Sfx { queue: Vec::new() }
    }

    /// Asks for a sound effect.
    pub fn play(&mut self, kind: SfxKind)
        ensures
            final(self)@ == old(self)@.push(kind),
    {
        self.queue.push(kind);
    }

    /// Hands over the sound effects asked for, oldest first, with the jingle
    /// each one starts, and forgets them.
    pub fn take_queue(&mut self) -> (r: Vec<(SfxKind, Option<BattleJingleEvent>)>)
        ensures
            r@.len() == old(self)@.len(),
            forall|i: int| 0 <= i < r@.len() ==> #[trigger] r@[i] == (old(self)@[i], jingle_of(old(self)@[i])),
            final(self)@.len() == 0,
    {
        let mut q: Vec<SfxKind> = Vec::new();
        std::mem::swap(&mut q, &mut self.queue);
        let mut r: Vec<(SfxKind, Option<BattleJingleEvent>)> = Vec::new();
        let mut i: usize = 0;
        while i < q.len()
            invariant
                i <= q@.len(),
                q@ == old(self)@,
                r@.len() == i,
                forall|j: int| 0 <= j < i ==> #[trigger] r@[j] == (q@[j], jingle_of(q@[j])),
            decreases q.len() - i,
        {
            let k = q[i];
            r.push((k, k.jingle()));
            i = i + 1;
        }
        r
    }
}

impl Default for Sfx {
    fn default() -> (r: Sfx)
        ensures
            r@.len() == 0,
    {
        Sfx::new()
    }
}

} // verus!
