//! Game logic of a terminal snake game: game state machine, player input
//! decisions, fruits and their timers, options validation, high score
//! ranking keys and the data behind the retro parameter tables.
pub mod state;
pub mod controls;
pub mod menus;
pub mod geometry;
pub mod clock;
pub mod sprites;
pub mod text;
pub mod unicode;
pub mod options;
pub mod random_helper;
pub mod fruits_manager;
pub mod playing_logic;
pub mod high_score;
pub mod logger;
