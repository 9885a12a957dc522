//! The sprites of the game that carry logic: fruits and their manager.
pub mod fruit;
