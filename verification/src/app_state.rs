use vstd::prelude::*;

verus! {

/// The screens of the game.
#[derive(Clone, Copy, Debug, PartialEq, Eq, Hash, Structural)]
pub enum AppState {
    MainMenu,
    GameStart,
    GameIntermission,
    GamePlanning,
    GameBattle,
    GameRewind,
    Sandbox,
}

/// Whether a screen belongs to a running game: all but the main menu and the
/// sandbox.
pub open spec fn game_screen(s: AppState) -> bool {
    !(s == AppState::MainMenu || s == AppState::Sandbox)
}

impl AppState {
    /// Whether this screen belongs to a running game.
    pub fn is_game_state(&self) -> (r: bool)
        ensures
            r == game_screen(*self),
    {
        match self {
            AppState::MainMenu => false,
            AppState::GameStart => true,
            AppState::GameIntermission => true,
            AppState::GamePlanning => true,
            AppState::GameBattle => true,
            AppState::GameRewind => true,
            AppState::Sandbox => false,
        }
    }

    /// Every screen, in declaration order.
    pub fn variants() -> (r: Vec<AppState>)
        ensures
            r@ == seq![
                AppState::MainMenu,
                AppState::GameStart,
                AppState::GameIntermission,
                AppState::GamePlanning,
                AppState::GameBattle,
                AppState::GameRewind,
                AppState::Sandbox,
            ],
    {
        vec![
            AppState::MainMenu,
            AppState::GameStart,
            AppState::GameIntermission,
            AppState::GamePlanning,
            AppState::GameBattle,
            AppState::GameRewind,
            AppState::Sandbox,
        ]
    }
}

impl Default for AppState {
    fn default() -> (r: AppState)
        ensures
            r == AppState::MainMenu,
    {
        AppState::MainMenu
    }
}

/// Whether the game's systems run on this screen.
pub fn in_game_state(current_state: AppState) -> (r: bool)
    ensures
        r == game_screen(current_state),
{
    current_state.is_game_state()
}

/// Whether the screen is neither part of a game nor the sandbox.
pub fn not_in_game_state_or_sandbox(current_state: AppState) -> (r: bool)
    ensures
        r == (!game_screen(current_state) && current_state != AppState::Sandbox),
{
    !current_state.is_game_state() && current_state != AppState::Sandbox
}

/// Who may take the player's input, in order of precedence: the dialogue box
/// first, then the game.
#[derive(Clone, Copy, Debug, PartialEq, Eq, Structural)]
pub enum InteractionMode {
    Dialogue,
    Game,
}

impl Default for InteractionMode {
    fn default() -> (r: InteractionMode)
        ensures
            r == InteractionMode::Game,
    {
        InteractionMode::Game
    }
}

/// Which modes want the player's input.
#[derive(Clone, Copy, Debug)]
pub struct InteractionStack {
    dialogue_wants: bool,
    game_wants: bool,
}

impl InteractionStack {
    /// Whether `mode` wants the player's input.
    pub closed spec fn wants(self, mode: InteractionMode) -> bool {
        match mode {
            InteractionMode::Dialogue => self.dialogue_wants,
            InteractionMode::Game => self.game_wants,
        }
    }

    /// Whether `mode` gets the player's input: it wants it, and the dialogue
    /// box does not take it first.
    pub open spec fn may_interact(self, mode: InteractionMode) -> bool {
        self.wants(mode) && (mode == InteractionMode::Game ==> !self.wants(InteractionMode::Dialogue))
    }

    /// Every mode wants the player's input.
    pub fn new() -> (r: InteractionStack)
        ensures
            forall|m: InteractionMode| r.wants(m),
    {
        InteractionStack { dialogue_wants: true, game_wants: true }
    }

    /// Says whether `mode` wants the player's input.
    pub fn set_wants_interaction(&mut self, mode: InteractionMode, wants_interaction: bool)
        ensures
            final(self).wants(mode) == wants_interaction,
            forall|m: InteractionMode| m != mode ==> final(self).wants(m) == old(self).wants(m),
    {
        match mode {
            InteractionMode::Dialogue => self.dialogue_wants = wants_interaction,
            InteractionMode::Game => self.game_wants = wants_interaction,
        }
    }

    /// Whether `mode` gets the player's input: it wants it, and no mode before
    /// it does.
    pub fn can_interact(&self, mode: InteractionMode) -> (r: bool)
        ensures
            r == self.may_interact(mode),
    {
        match mode {
            InteractionMode::Dialogue => self.dialogue_wants,
            InteractionMode::Game => if self.dialogue_wants {
                false
            } else {
                self.game_wants
            },
        }
    }
}

impl Default for InteractionStack {
    fn default() -> (r: InteractionStack)
        ensures
            forall|m: InteractionMode| r.wants(m),
    {
        InteractionStack::new()
    }
}

/// At most one mode gets the player's input at a time.
pub proof fn law_one_mode_interacts(s: InteractionStack)
    ensures
        !(s.may_interact(InteractionMode::Dialogue) && s.may_interact(InteractionMode::Game)),
{
}

/// A countdown of frames after which a thing goes away.
#[derive(Clone, Copy, Debug)]
pub struct FramesToLive {
    pub frames: usize,
}

impl FramesToLive {
    /// A countdown of `frames` frames.
    pub fn new(frames: usize) -> (r: FramesToLive)
        ensures
            r.frames == frames,
    {
        FramesToLive { frames }
    }

    /// One frame passes: true when the countdown had already run out (the
    /// thing goes away now); otherwise one frame fewer is left.
    pub fn tick(&mut self) -> (r: bool)
        ensures
            r == (old(self).frames == 0),
            final(self).frames == (if old(self).frames == 0 { 0 } else { (old(self).frames - 1) as usize }),
    {
        if self.frames == 0 {
            true
        } else {
            self.frames = self.frames - 1;
            false
        }
    }
}

} // verus!
