//! Data and navigation behind the menus: main menu switcher, greeting
//! screens, the moving snake of the welcome screen and the retro tables.
pub mod main_menu;
pub mod table;
pub mod tables_content;
pub mod parameters_cli;
pub mod edge_snake;
pub mod greeting;
