//! Game state: lives, score, status and the game over selection.
use vstd::prelude::*;

verus! {

/// Options of the Game Over menu.
#[derive(Debug, Clone, Copy, PartialEq, Eq, Structural)]
pub enum GameOverMenu {
    Restart,
    Menu,
    Quit,
}

impl GameOverMenu {
    /// The option after `m`, cycling Restart -> Menu -> Quit -> Restart.
    pub open spec fn spec_next(self) -> GameOverMenu {
        match self {
            GameOverMenu::Restart => GameOverMenu::Menu,
            GameOverMenu::Menu => GameOverMenu::Quit,
            GameOverMenu::Quit => GameOverMenu::Restart,
        }
    }

    /// The option before `m`, cycling the other way.
    pub open spec fn spec_previous(self) -> GameOverMenu {
        match self {
            GameOverMenu::Restart => GameOverMenu::Quit,
            GameOverMenu::Menu => GameOverMenu::Restart,
            GameOverMenu::Quit => GameOverMenu::Menu,
        }
    }

    /// Restart is selected by default after a game over.
    pub fn default_selection() -> (m: GameOverMenu)
        ensures
            m == GameOverMenu::Restart,
    {
        GameOverMenu::Restart
    }

    pub fn next(self) -> (r: GameOverMenu)
        ensures
            r == self.spec_next(),
    {
        match self {
            GameOverMenu::Restart => GameOverMenu::Menu,
            GameOverMenu::Menu => GameOverMenu::Quit,
            GameOverMenu::Quit => GameOverMenu::Restart,
        }
    }

    pub fn previous(self) -> (r: GameOverMenu)
        ensures
            r == self.spec_previous(),
    {
        match self {
            GameOverMenu::Restart => GameOverMenu::Quit,
            GameOverMenu::Menu => GameOverMenu::Restart,
            GameOverMenu::Quit => GameOverMenu::Menu,
        }
    }
}

/// Moving to the next option and back (or back and forth) selects the same
/// option again, and three steps in one direction come back to the start.
pub proof fn lemma_game_over_menu_cycle(m: GameOverMenu)
    ensures
        m.spec_next().spec_previous() == m,
        m.spec_previous().spec_next() == m,
        m.spec_next().spec_next().spec_next() == m,
        m.spec_previous().spec_previous().spec_previous() == m,
{
}

/// The possible states of a game.
#[derive(Debug, Clone, Copy, PartialEq, Eq, Structural)]
pub enum GameStatus {
    Paused,
    GameOver(GameOverMenu),
    ByeBye,
    Playing,
    Restarting,
    Menu,
}

/// Lives, score and status of the current game.
#[derive(Debug, Clone, PartialEq, Eq, Structural)]
pub struct GameState {
    /// Current life count
    pub life: u16,
    /// Current score
    pub score: u32,
    /// Current status
    pub status: GameStatus,
    /// Rank of the last finished game among the best scores, if any
    pub rank: Option<usize>,
    /// Initial life count, restored by `reset`
    pub life_ini: u16,
}

/// The state of a new game with `life` lives.
pub open spec fn new_game_state(life: u16) -> GameState {
    GameState { life, score: 0, status: GameStatus::Playing, rank: None, life_ini: life }
}

/// The state after a reset: initial lives, no score, playing; the rank is kept.
pub open spec fn reset_game_state(s: GameState) -> GameState {
    GameState { life: s.life_ini, score: 0, status: GameStatus::Playing, ..s }
}

impl GameState {
    /// A new game with `life` lives, no score, playing.
    pub fn new(life: u16) -> (s: GameState)
        ensures
            s == new_game_state(life),
    {
        GameState { life, score: 0, status: GameStatus::Playing, rank: None, life_ini: life }
    }

    /// Resets score, status and lives to their initial values.
    pub fn reset(&mut self)
        ensures
            *final(self) == reset_game_state(*old(self)),
    {
        self.score = 0;
        self.status = GameStatus::Playing;
        self.life = self.life_ini;
    }
}

/// Resetting twice is resetting once, and resetting a new game changes nothing.
pub proof fn lemma_reset_idempotent(s: GameState, life: u16)
    ensures
        reset_game_state(reset_game_state(s)) == reset_game_state(s),
        reset_game_state(new_game_state(life)) == new_game_state(life),
{
}

} // verus!
