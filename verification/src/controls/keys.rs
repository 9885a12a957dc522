//! The keys of the keyboard the game tells apart, and the groups of keys
//! bound to each command.
use vstd::prelude::*;

verus! {

/// A key code, as read from the terminal.
#[derive(Debug, Clone, Copy, PartialEq, Eq, Structural)]
pub enum Key {
    Char(char),
    Left,
    Right,
    Up,
    Down,
    Enter,
    End,
    Home,
    Backspace,
    Tab,
    Esc,
    /// Any key the game gives no meaning to
    Other,
}

/// q, Q or Tab quit the game.
pub open spec fn is_quit_key(k: Key) -> bool {
    k == Key::Char('q') || k == Key::Char('Q') || k == Key::Tab
}

/// r or R start a game from the main menu.
pub open spec fn is_start_key(k: Key) -> bool {
    k == Key::Char('r') || k == Key::Char('R')
}

/// m, M or Home go back to the main menu.
pub open spec fn is_main_menu_key(k: Key) -> bool {
    k == Key::Char('m') || k == Key::Char('M') || k == Key::Home
}

/// p, P, space or - pause and resume.
pub open spec fn is_pause_key(k: Key) -> bool {
    k == Key::Char('p') || k == Key::Char('P') || k == Key::Char(' ') || k == Key::Char('-')
}

/// r or R restart the game while playing.
pub open spec fn is_reset_key(k: Key) -> bool {
    k == Key::Char('r') || k == Key::Char('R')
}

/// Right or Up select the next item.
pub open spec fn is_next_key(k: Key) -> bool {
    k == Key::Right || k == Key::Up
}

/// Left, Backspace or Down select the previous item.
pub open spec fn is_previous_key(k: Key) -> bool {
    k == Key::Left || k == Key::Backspace || k == Key::Down
}

/// Enter or End validate the selected item.
pub open spec fn is_enter_key(k: Key) -> bool {
    k == Key::Enter || k == Key::End
}

/// e or E open the parameters menu.
pub open spec fn is_parameters_key(k: Key) -> bool {
    k == Key::Char('e') || k == Key::Char('E')
}

/// f or F open the fruits menu.
pub open spec fn is_fruits_key(k: Key) -> bool {
    k == Key::Char('f') || k == Key::Char('F')
}

/// s or P open the speed menu.
pub open spec fn is_velocity_key(k: Key) -> bool {
    k == Key::Char('s') || k == Key::Char('P')
}

/// d or D open the documentation menu.
pub open spec fn is_help_key(k: Key) -> bool {
    k == Key::Char('d') || k == Key::Char('D')
}

/// h or H open the high scores menu.
pub open spec fn is_high_score_key(k: Key) -> bool {
    k == Key::Char('h') || k == Key::Char('H')
}

pub fn quit_key(k: Key) -> (r: bool)
    ensures
        r == is_quit_key(k),
{
    k == Key::Char('q') || k == Key::Char('Q') || k == Key::Tab
}

pub fn start_key(k: Key) -> (r: bool)
    ensures
        r == is_start_key(k),
{
    k == Key::Char('r') || k == Key::Char('R')
}

pub fn main_menu_key(k: Key) -> (r: bool)
    ensures
        r == is_main_menu_key(k),
{
    k == Key::Char('m') || k == Key::Char('M') || k == Key::Home
}

pub fn pause_key(k: Key) -> (r: bool)
    ensures
        r == is_pause_key(k),
{
    k == Key::Char('p') || k == Key::Char('P') || k == Key::Char(' ') || k == Key::Char('-')
}

pub fn reset_key(k: Key) -> (r: bool)
    ensures
        r == is_reset_key(k),
{
    k == Key::Char('r') || k == Key::Char('R')
}

pub fn next_key(k: Key) -> (r: bool)
    ensures
        r == is_next_key(k),
{
    k == Key::Right || k == Key::Up
}

pub fn previous_key(k: Key) -> (r: bool)
    ensures
        r == is_previous_key(k),
{
    k == Key::Left || k == Key::Backspace || k == Key::Down
}

pub fn enter_key(k: Key) -> (r: bool)
    ensures
        r == is_enter_key(k),
{
    k == Key::Enter || k == Key::End
}

pub fn parameters_key(k: Key) -> (r: bool)
    ensures
        r == is_parameters_key(k),
{
    k == Key::Char('e') || k == Key::Char('E')
}

pub fn fruits_key(k: Key) -> (r: bool)
    ensures
        r == is_fruits_key(k),
{
    k == Key::Char('f') || k == Key::Char('F')
}

pub fn velocity_key(k: Key) -> (r: bool)
    ensures
        r == is_velocity_key(k),
{
    k == Key::Char('s') || k == Key::Char('P')
}

pub fn help_key(k: Key) -> (r: bool)
    ensures
        r == is_help_key(k),
{
    k == Key::Char('d') || k == Key::Char('D')
}

pub fn high_score_key(k: Key) -> (r: bool)
    ensures
        r == is_high_score_key(k),
{
    k == Key::Char('h') || k == Key::Char('H')
}

/// During a game no key has two meanings: the quit, main menu, pause and
/// restart keys and the arrows are different keys.
pub proof fn lemma_game_keys_distinct(k: Key)
    ensures
        !(is_quit_key(k) && is_main_menu_key(k)),
        !(is_quit_key(k) && is_pause_key(k)),
        !(is_quit_key(k) && is_reset_key(k)),
        !(is_main_menu_key(k) && is_pause_key(k)),
        !(is_main_menu_key(k) && is_reset_key(k)),
        !(is_pause_key(k) && is_reset_key(k)),
        (is_quit_key(k) || is_main_menu_key(k) || is_pause_key(k) || is_reset_key(k))
            ==> k != Key::Left && k != Key::Right && k != Key::Up && k != Key::Down,
        !(is_next_key(k) && is_previous_key(k)),
        !(is_next_key(k) && is_enter_key(k)),
        !(is_previous_key(k) && is_enter_key(k)),
{
}

/// On the main menu the keys that open a submenu, start, quit, move the
/// selection or validate it are all different keys.
pub proof fn lemma_menu_keys_distinct(k: Key)
    ensures
        is_parameters_key(k) ==> !is_fruits_key(k) && !is_velocity_key(k) && !is_help_key(k) && !is_high_score_key(k),
        is_fruits_key(k) ==> !is_velocity_key(k) && !is_help_key(k) && !is_high_score_key(k),
        is_velocity_key(k) ==> !is_help_key(k) && !is_high_score_key(k),
        is_help_key(k) ==> !is_high_score_key(k),
        (is_parameters_key(k) || is_fruits_key(k) || is_velocity_key(k) || is_help_key(k) || is_high_score_key(k))
            ==> !is_start_key(k) && !is_quit_key(k) && !is_next_key(k) && !is_previous_key(k) && !is_enter_key(k),
        is_start_key(k) ==> !is_quit_key(k),
{
}

} // verus!
