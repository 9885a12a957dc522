//! The control part of the main menu: which input a key stands for, and
//! where an input leads from the current selection.
use vstd::prelude::*;
use crate::controls::keys::{
    Key, is_start_key, is_quit_key, is_parameters_key, is_fruits_key, is_velocity_key, is_help_key,
    is_high_score_key, is_next_key, is_previous_key, is_enter_key, start_key, quit_key,
    parameters_key, fruits_key, velocity_key, help_key, high_score_key, next_key, previous_key,
    enter_key,
};
use crate::menus::main_menu::{SwitchMenu, switch_menu_at, switch_menu_option, SWITCH_MENUS_COUNT};

verus! {

/// The inputs of the main menu.
#[derive(Debug, Clone, Copy, PartialEq, Eq, Structural)]
pub enum MainMenuInput {
    Fruits,
    Speed,
    Start,
    Parameters,
    Doc,
    Highs,
    Main,
    QuitGame,
    Next,
    Previous,
    Enter,
}

/// The input a pressed key stands for in the main menu.
pub open spec fn spec_main_menu_input(k: Key) -> MainMenuInput {
    if is_start_key(k) {
        MainMenuInput::Start
    } else if is_quit_key(k) {
        MainMenuInput::QuitGame
    } else if is_parameters_key(k) {
        MainMenuInput::Parameters
    } else if is_fruits_key(k) {
        MainMenuInput::Fruits
    } else if is_velocity_key(k) {
        MainMenuInput::Speed
    } else if is_help_key(k) {
        MainMenuInput::Doc
    } else if is_high_score_key(k) {
        MainMenuInput::Highs
    } else if is_next_key(k) {
        MainMenuInput::Next
    } else if is_previous_key(k) {
        MainMenuInput::Previous
    } else if is_enter_key(k) {
        MainMenuInput::Enter
    } else {
        MainMenuInput::Main
    }
}

/// The input a key press stands for in the main menu (any other event than
/// a key press stands for `Main`).
pub fn main_menu_input_for_key(k: Key) -> (r: MainMenuInput)
    ensures
        r == spec_main_menu_input(k),
        k == Key::Char('e') || k == Key::Char('E') ==> r == MainMenuInput::Parameters,
        k == Key::Char('f') || k == Key::Char('F') ==> r == MainMenuInput::Fruits,
        k == Key::Char('s') || k == Key::Char('P') ==> r == MainMenuInput::Speed,
        k == Key::Char('d') || k == Key::Char('D') ==> r == MainMenuInput::Doc,
        k == Key::Char('h') || k == Key::Char('H') ==> r == MainMenuInput::Highs,
        k == Key::Char('r') || k == Key::Char('R') ==> r == MainMenuInput::Start,
        k == Key::Char('q') || k == Key::Char('Q') || k == Key::Tab ==> r == MainMenuInput::QuitGame,
        k == Key::Right || k == Key::Up ==> r == MainMenuInput::Next,
        k == Key::Left || k == Key::Backspace || k == Key::Down ==> r == MainMenuInput::Previous,
        k == Key::Enter || k == Key::End ==> r == MainMenuInput::Enter,
{
    if start_key(k) {
        MainMenuInput::Start
    } else if quit_key(k) {
        MainMenuInput::QuitGame
    } else if parameters_key(k) {
        MainMenuInput::Parameters
    } else if fruits_key(k) {
        MainMenuInput::Fruits
    } else if velocity_key(k) {
        MainMenuInput::Speed
    } else if help_key(k) {
        MainMenuInput::Doc
    } else if high_score_key(k) {
        MainMenuInput::Highs
    } else if next_key(k) {
        MainMenuInput::Next
    } else if previous_key(k) {
        MainMenuInput::Previous
    } else if enter_key(k) {
        MainMenuInput::Enter
    } else {
        MainMenuInput::Main
    }
}

/// What the main menu does after an input.
#[derive(Debug, Clone, Copy, PartialEq, Eq, Structural)]
pub enum MenuFlow {
    StayOnMainScreen,
    StartGame,
    QuitGame,
}

/// Position of the switcher selected when the menu opens (Run).
pub const DEFAULT_SELECTED: usize = 3;

/// One step of the main menu: the flow, the submenu to run before coming
/// back (if any), whether the main screen is drawn, and the new selection.
#[derive(Debug, Clone, Copy, PartialEq, Eq, Structural)]
pub struct MenuStep {
    pub flow: MenuFlow,
    pub submenu: Option<SwitchMenu>,
    pub display_main: bool,
    pub selected: usize,
}

/// The screen an input asks for, and the selection after moving it.
pub open spec fn screen_for_input(input: MainMenuInput, selected: int) -> (SwitchMenu, int) {
    match input {
        MainMenuInput::Enter => (switch_menu_at(selected), selected),
        MainMenuInput::Parameters => (SwitchMenu::Parameters, selected),
        MainMenuInput::Fruits => (SwitchMenu::Fruits, selected),
        MainMenuInput::Speed => (SwitchMenu::Speed, selected),
        MainMenuInput::Doc => (SwitchMenu::Doc, selected),
        MainMenuInput::Highs => (SwitchMenu::Highs, selected),
        MainMenuInput::Next => (SwitchMenu::Main, (selected + 1) % (SWITCH_MENUS_COUNT as int)),
        MainMenuInput::Previous => (
            SwitchMenu::Main,
            (selected + SWITCH_MENUS_COUNT - 1) % (SWITCH_MENUS_COUNT as int),
        ),
        _ => (SwitchMenu::Main, selected),
    }
}

/// The step of the main menu for `input` when `selected` is selected.
pub open spec fn spec_main_menu_step(input: MainMenuInput, selected: int) -> MenuStep {
    if input == MainMenuInput::QuitGame {
        MenuStep { flow: MenuFlow::QuitGame, submenu: None, display_main: false, selected: selected as usize }
    } else if input == MainMenuInput::Start {
        MenuStep { flow: MenuFlow::StartGame, submenu: None, display_main: false, selected: selected as usize }
    } else {
        let (screen, sel) = screen_for_input(input, selected);
        if screen == SwitchMenu::Run {
            MenuStep { flow: MenuFlow::StartGame, submenu: None, display_main: false, selected: sel as usize }
        } else if screen == SwitchMenu::Main {
            MenuStep { flow: MenuFlow::StayOnMainScreen, submenu: None, display_main: true, selected: sel as usize }
        } else {
            MenuStep {
                flow: MenuFlow::StayOnMainScreen,
                submenu: Some(screen),
                display_main: false,
                selected: DEFAULT_SELECTED,
            }
        }
    }
}

/// Decides what the main menu does for `input`: quit, start the game, run a
/// submenu (after which the selection goes back to Run), or move the
/// selection and draw the main screen again.
pub fn main_menu_step(input: MainMenuInput, selected: usize) -> (s: MenuStep)
    requires
        selected < SWITCH_MENUS_COUNT,
    ensures
        s == spec_main_menu_step(input, selected as int),
        s.selected < SWITCH_MENUS_COUNT,
        input == MainMenuInput::Parameters ==> s.submenu == Some(SwitchMenu::Parameters),
        input == MainMenuInput::Fruits ==> s.submenu == Some(SwitchMenu::Fruits),
        input == MainMenuInput::Speed ==> s.submenu == Some(SwitchMenu::Speed),
        input == MainMenuInput::Doc ==> s.submenu == Some(SwitchMenu::Doc),
        input == MainMenuInput::Highs ==> s.submenu == Some(SwitchMenu::Highs),
        input == MainMenuInput::QuitGame ==> s.flow == MenuFlow::QuitGame,
        input == MainMenuInput::Start ==> s.flow == MenuFlow::StartGame,
{
    let (screen, sel): (SwitchMenu, usize) = match input {
        MainMenuInput::Enter => (switch_menu_option(selected), selected),
        MainMenuInput::Parameters => (SwitchMenu::Parameters, selected),
        MainMenuInput::Fruits => (SwitchMenu::Fruits, selected),
        MainMenuInput::Speed => (SwitchMenu::Speed, selected),
        MainMenuInput::Doc => (SwitchMenu::Doc, selected),
        MainMenuInput::Highs => (SwitchMenu::Highs, selected),
        MainMenuInput::Next => (SwitchMenu::Main, (selected + 1) % SWITCH_MENUS_COUNT),
        MainMenuInput::Previous => (
            SwitchMenu::Main,
            (selected + SWITCH_MENUS_COUNT - 1) % SWITCH_MENUS_COUNT,
        ),
        MainMenuInput::QuitGame => {
            return MenuStep { flow: MenuFlow::QuitGame, submenu: None, display_main: false, selected };
        },
        MainMenuInput::Start => {
            return MenuStep { flow: MenuFlow::StartGame, submenu: None, display_main: false, selected };
        },
        MainMenuInput::Main => (SwitchMenu::Main, selected),
    };
    match screen {
        SwitchMenu::Run => MenuStep { flow: MenuFlow::StartGame, submenu: None, display_main: false, selected: sel },
        SwitchMenu::Main => MenuStep { flow: MenuFlow::StayOnMainScreen, submenu: None, display_main: true, selected: sel },
        _ => MenuStep {
            flow: MenuFlow::StayOnMainScreen,
            submenu: Some(screen),
            display_main: false,
            selected: DEFAULT_SELECTED,
        },
    }
}

/// Each submenu input opens its own submenu, whatever is selected, and the
/// selection goes back to Run: the parameters key the parameters table, the
/// fruits key the fruits table, the speed key the speed screen, the help key
/// the documentation and the high score key the best scores. The quit input
/// quits and the start input starts a game, keeping the selection.
pub proof fn lemma_submenu_inputs_open_their_menu(selected: int)
    ensures
        spec_main_menu_step(MainMenuInput::Parameters, selected) == (MenuStep {
            flow: MenuFlow::StayOnMainScreen, submenu: Some(SwitchMenu::Parameters), display_main: false, selected: 3 }),
        spec_main_menu_step(MainMenuInput::Fruits, selected) == (MenuStep {
            flow: MenuFlow::StayOnMainScreen, submenu: Some(SwitchMenu::Fruits), display_main: false, selected: 3 }),
        spec_main_menu_step(MainMenuInput::Speed, selected) == (MenuStep {
            flow: MenuFlow::StayOnMainScreen, submenu: Some(SwitchMenu::Speed), display_main: false, selected: 3 }),
        spec_main_menu_step(MainMenuInput::Doc, selected) == (MenuStep {
            flow: MenuFlow::StayOnMainScreen, submenu: Some(SwitchMenu::Doc), display_main: false, selected: 3 }),
        spec_main_menu_step(MainMenuInput::Highs, selected) == (MenuStep {
            flow: MenuFlow::StayOnMainScreen, submenu: Some(SwitchMenu::Highs), display_main: false, selected: 3 }),
        spec_main_menu_step(MainMenuInput::QuitGame, selected).flow == MenuFlow::QuitGame,
        spec_main_menu_step(MainMenuInput::Start, selected).flow == MenuFlow::StartGame,
{
}

/// Moving the selection to the next option and then to the previous one (or
/// the other way round) gives back the selection.
pub proof fn lemma_next_previous_selection(selected: usize)
    requires
        selected < SWITCH_MENUS_COUNT,
    ensures
        spec_main_menu_step(MainMenuInput::Previous, spec_main_menu_step(MainMenuInput::Next, selected as int).selected as int).selected == selected,
        spec_main_menu_step(MainMenuInput::Next, spec_main_menu_step(MainMenuInput::Previous, selected as int).selected as int).selected == selected,
{
}

} // verus!
