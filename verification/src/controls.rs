//! Keyboard controls: the keys the game reacts to, the main menu and the
//! in-game input decisions.
pub mod direction;
pub mod keys;
pub mod main_menu;
pub mod playing_input;
