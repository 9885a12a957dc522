//! The in-game input decisions: what a key press does to the game status and
//! to the direction of the snake.
use vstd::prelude::*;
use crate::controls::direction::Direction;
use crate::controls::keys::{
    Key, is_next_key, is_previous_key, is_enter_key, is_pause_key, is_quit_key, is_main_menu_key,
    is_reset_key, next_key, previous_key, enter_key, pause_key, quit_key, main_menu_key,
    reset_key,
};
use crate::state::{GameOverMenu, GameStatus};

verus! {

/// The effect of one key press during a game.
#[derive(Debug, Clone, Copy, PartialEq, Eq, Structural)]
pub struct InputOutcome {
    /// The new game status
    pub status: GameStatus,
    /// The new direction of the snake, if the key sets one
    pub direction: Option<Direction>,
    /// Whether the input loop ends (quit or back to the menu)
    pub stop: bool,
}

/// The direction an arrow key stands for.
pub open spec fn spec_arrow_direction(k: Key) -> Option<Direction> {
    match k {
        Key::Left => Some(Direction::Left),
        Key::Right => Some(Direction::Right),
        Key::Down => Some(Direction::Down),
        Key::Up => Some(Direction::Up),
        _ => None,
    }
}

/// The direction an arrow key stands for.
pub fn arrow_direction(k: Key) -> (d: Option<Direction>)
    ensures
        d == spec_arrow_direction(k),
        (k == Key::Left) == (d == Some(Direction::Left)),
        (k == Key::Right) == (d == Some(Direction::Right)),
        (k == Key::Down) == (d == Some(Direction::Down)),
        (k == Key::Up) == (d == Some(Direction::Up)),
{
    match k {
        Key::Left => Some(Direction::Left),
        Key::Right => Some(Direction::Right),
        Key::Down => Some(Direction::Down),
        Key::Up => Some(Direction::Up),
        _ => None,
    }
}

/// The game over menu part: moving the selection or validating it.
/// Returns the status and whether the input loop ends.
pub open spec fn spec_game_over_input(status: GameStatus, k: Key) -> (GameStatus, bool) {
    match status {
        GameStatus::GameOver(sel) => {
            if is_next_key(k) {
                (GameStatus::GameOver(sel.spec_next()), false)
            } else if is_previous_key(k) {
                (GameStatus::GameOver(sel.spec_previous()), false)
            } else if is_enter_key(k) {
                match sel {
                    GameOverMenu::Restart => (GameStatus::Restarting, false),
                    GameOverMenu::Menu => (GameStatus::Menu, true),
                    GameOverMenu::Quit => (GameStatus::ByeBye, true),
                }
            } else {
                (status, false)
            }
        },
        _ => (status, false),
    }
}

/// The shortcut part: pause, quit, menu, restart or arrows.
pub open spec fn spec_shortcut_input(status: GameStatus, k: Key) -> InputOutcome {
    if is_pause_key(k) {
        if status == GameStatus::Playing {
            InputOutcome { status: GameStatus::Paused, direction: None, stop: false }
        } else if status == GameStatus::Paused {
            InputOutcome { status: GameStatus::Playing, direction: None, stop: false }
        } else {
            InputOutcome { status, direction: None, stop: false }
        }
    } else if is_quit_key(k) {
        InputOutcome { status: GameStatus::ByeBye, direction: None, stop: true }
    } else if is_main_menu_key(k) {
        InputOutcome { status: GameStatus::Menu, direction: None, stop: true }
    } else if is_reset_key(k) {
        InputOutcome { status: GameStatus::Restarting, direction: None, stop: false }
    } else {
        InputOutcome { status, direction: spec_arrow_direction(k), stop: false }
    }
}

/// The effect of pressing `k` while the game is in `status`: the game over
/// selection is handled first, then (unless the loop ended there) the
/// shortcuts, which stay active on the game over screen.
pub open spec fn spec_playing_input(status: GameStatus, k: Key) -> InputOutcome {
    let (s1, stop) = spec_game_over_input(status, k);
    if stop {
        InputOutcome { status: s1, direction: None, stop: true }
    } else {
        spec_shortcut_input(s1, k)
    }
}

/// Decides the effect of pressing `k` while the game is in `status`.
pub fn playing_input_step(status: GameStatus, k: Key) -> (r: InputOutcome)
    ensures
        r == spec_playing_input(status, k),
        status == GameStatus::Playing && k == Key::Left ==> r == (InputOutcome {
            status: GameStatus::Playing,
            direction: Some(Direction::Left),
            stop: false,
        }),
        status == GameStatus::Playing && k == Key::Right ==> r == (InputOutcome {
            status: GameStatus::Playing,
            direction: Some(Direction::Right),
            stop: false,
        }),
        status == GameStatus::Playing && k == Key::Down ==> r == (InputOutcome {
            status: GameStatus::Playing,
            direction: Some(Direction::Down),
            stop: false,
        }),
        status == GameStatus::Playing && k == Key::Up ==> r == (InputOutcome {
            status: GameStatus::Playing,
            direction: Some(Direction::Up),
            stop: false,
        }),
{
    let mut status = status;
    if let GameStatus::GameOver(selection) = status {
        if next_key(k) {
            status = GameStatus::GameOver(selection.next());
        } else if previous_key(k) {
            status = GameStatus::GameOver(selection.previous());
        } else if enter_key(k) {
            match selection {
                GameOverMenu::Restart => {
                    status = GameStatus::Restarting;
                },
                GameOverMenu::Menu => {
                    return InputOutcome { status: GameStatus::Menu, direction: None, stop: true };
                },
                GameOverMenu::Quit => {
                    return InputOutcome { status: GameStatus::ByeBye, direction: None, stop: true };
                },
            }
        }
    }
    if pause_key(k) {
        if status == GameStatus::Playing {
            InputOutcome { status: GameStatus::Paused, direction: None, stop: false }
        } else if status == GameStatus::Paused {
            InputOutcome { status: GameStatus::Playing, direction: None, stop: false }
        } else {
            InputOutcome { status, direction: None, stop: false }
        }
    } else if quit_key(k) {
        InputOutcome { status: GameStatus::ByeBye, direction: None, stop: true }
    } else if main_menu_key(k) {
        InputOutcome { status: GameStatus::Menu, direction: None, stop: true }
    } else if reset_key(k) {
        InputOutcome { status: GameStatus::Restarting, direction: None, stop: false }
    } else {
        InputOutcome { status, direction: arrow_direction(k), stop: false }
    }
}

/// Pausing is undone by pressing a pause key again: from Playing a pause key
/// gives Paused, and from there a pause key gives Playing back.
pub proof fn lemma_pause_toggles(k: Key)
    requires
        is_pause_key(k),
    ensures
        spec_playing_input(GameStatus::Playing, k).status == GameStatus::Paused,
        spec_playing_input(spec_playing_input(GameStatus::Playing, k).status, k).status
            == GameStatus::Playing,
{
}

/// A quit key always ends the game and the input loop, whatever the status.
pub proof fn lemma_quit_always_ends(status: GameStatus, k: Key)
    requires
        is_quit_key(k),
    ensures
        spec_playing_input(status, k).status == GameStatus::ByeBye,
        spec_playing_input(status, k).stop,
{
}

/// Each arrow key, and only it, turns the snake in its own direction: Left
/// to the left, Right to the right, Down downwards, Up upwards; every other
/// key sets no direction.
pub proof fn lemma_each_arrow_turns_its_way(k: Key)
    ensures
        (k == Key::Left) == (spec_arrow_direction(k) == Some(Direction::Left)),
        (k == Key::Right) == (spec_arrow_direction(k) == Some(Direction::Right)),
        (k == Key::Down) == (spec_arrow_direction(k) == Some(Direction::Down)),
        (k == Key::Up) == (spec_arrow_direction(k) == Some(Direction::Up)),
        (k != Key::Left && k != Key::Right && k != Key::Down && k != Key::Up) == (spec_arrow_direction(k) is None),
        k == Key::Left || k == Key::Right || k == Key::Down || k == Key::Up ==> spec_playing_input(GameStatus::Playing, k)
            == (InputOutcome { status: GameStatus::Playing, direction: spec_arrow_direction(k), stop: false }),
{
}

/// An arrow key while playing only changes the direction.
pub proof fn lemma_arrow_only_turns(k: Key)
    requires
        spec_arrow_direction(k).is_some(),
    ensures
        spec_playing_input(GameStatus::Playing, k)
            == (InputOutcome { status: GameStatus::Playing, direction: spec_arrow_direction(k), stop: false }),
{
}

} // verus!
