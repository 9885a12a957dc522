use rsnaker::controls::direction::Direction;
use rsnaker::controls::keys::{pause_key, quit_key, Key};
use rsnaker::controls::main_menu::{main_menu_input_for_key, main_menu_step, MainMenuInput, MenuFlow, DEFAULT_SELECTED};
use rsnaker::controls::playing_input::{arrow_direction, playing_input_step, InputOutcome};
use rsnaker::menus::main_menu::{switch_buttons, switch_menu_option, Button, SwitchMenu, SWITCH_MENUS_COUNT};
use rsnaker::state::{GameOverMenu, GameState, GameStatus};

#[test]
fn game_state_starts_and_resets() {
    let mut state = GameState::new(3);
    assert_eq!(state.life, 3);
    assert_eq!(state.score, 0);
    assert_eq!(state.status, GameStatus::Playing);
    state.life = 1;
    state.score = 42;
    state.status = GameStatus::Paused;
    state.reset();
    assert_eq!(state.life, 3);
    assert_eq!(state.score, 0);
    assert_eq!(state.status, GameStatus::Playing);
}

#[test]
fn game_over_menu_cycles() {
    let m = GameOverMenu::default_selection();
    assert_eq!(m, GameOverMenu::Restart);
    assert_eq!(m.next(), GameOverMenu::Menu);
    assert_eq!(m.next().next().next(), m);
    assert_eq!(m.previous(), GameOverMenu::Quit);
    assert_eq!(m.next().previous(), m);
}

#[test]
fn the_snake_starts_to_the_right() {
    assert_eq!(Direction::initial(), Direction::Right);
}

#[test]
fn key_roles() {
    assert!(quit_key(Key::Char('q')) && quit_key(Key::Tab));
    assert!(!quit_key(Key::Char('x')));
    assert!(pause_key(Key::Char(' ')) && pause_key(Key::Char('-')));
}

#[test]
fn main_menu_keys() {
    assert_eq!(main_menu_input_for_key(Key::Char('r')), MainMenuInput::Start);
    assert_eq!(main_menu_input_for_key(Key::Char('Q')), MainMenuInput::QuitGame);
    assert_eq!(main_menu_input_for_key(Key::Char('e')), MainMenuInput::Parameters);
    assert_eq!(main_menu_input_for_key(Key::Char('F')), MainMenuInput::Fruits);
    assert_eq!(main_menu_input_for_key(Key::Char('P')), MainMenuInput::Speed);
    assert_eq!(main_menu_input_for_key(Key::Char('d')), MainMenuInput::Doc);
    assert_eq!(main_menu_input_for_key(Key::Char('h')), MainMenuInput::Highs);
    assert_eq!(main_menu_input_for_key(Key::Up), MainMenuInput::Next);
    assert_eq!(main_menu_input_for_key(Key::Backspace), MainMenuInput::Previous);
    assert_eq!(main_menu_input_for_key(Key::End), MainMenuInput::Enter);
    assert_eq!(main_menu_input_for_key(Key::Other), MainMenuInput::Main);
}

#[test]
fn main_menu_steps() {
    let s = main_menu_step(MainMenuInput::Next, 5);
    assert_eq!((s.flow, s.selected, s.display_main, s.submenu), (MenuFlow::StayOnMainScreen, 0, true, None));
    let s = main_menu_step(MainMenuInput::Previous, 0);
    assert_eq!(s.selected, 5);
    let s = main_menu_step(MainMenuInput::Enter, 3);
    assert_eq!(s.flow, MenuFlow::StartGame);
    let s = main_menu_step(MainMenuInput::Enter, 1);
    assert_eq!((s.submenu, s.selected), (Some(SwitchMenu::Fruits), DEFAULT_SELECTED));
    let s = main_menu_step(MainMenuInput::Highs, 0);
    assert_eq!(s.submenu, Some(SwitchMenu::Highs));
    assert_eq!(main_menu_step(MainMenuInput::QuitGame, 2).flow, MenuFlow::QuitGame);
    assert_eq!(main_menu_step(MainMenuInput::Start, 2).flow, MenuFlow::StartGame);
}

#[test]
fn switcher_buttons() {
    let b = switch_buttons(SwitchMenu::Speed);
    assert_eq!(b.len(), SWITCH_MENUS_COUNT);
    assert!(b[2].selected);
    assert_eq!(b.iter().filter(|x| x.selected).count(), 1);
    assert_eq!(b[0].name, "Highs💯");
    assert_eq!(switch_menu_option(5), SwitchMenu::Doc);
    let mut button = Button::new("Run");
    assert!(!button.selected);
    button.selected(true);
    assert!(button.selected);
}

#[test]
fn in_game_keys() {
    assert_eq!(arrow_direction(Key::Left), Some(Direction::Left));
    assert_eq!(arrow_direction(Key::Enter), None);
    assert_eq!(
        playing_input_step(GameStatus::Playing, Key::Up),
        InputOutcome { status: GameStatus::Playing, direction: Some(Direction::Up), stop: false }
    );
    let paused = playing_input_step(GameStatus::Playing, Key::Char('p'));
    assert_eq!(paused.status, GameStatus::Paused);
    assert_eq!(playing_input_step(paused.status, Key::Char('p')).status, GameStatus::Playing);
    let quit = playing_input_step(GameStatus::Paused, Key::Char('q'));
    assert_eq!((quit.status, quit.stop), (GameStatus::ByeBye, true));
    let menu = playing_input_step(GameStatus::Playing, Key::Char('m'));
    assert_eq!((menu.status, menu.stop), (GameStatus::Menu, true));
    assert_eq!(playing_input_step(GameStatus::Playing, Key::Char('r')).status, GameStatus::Restarting);
}

#[test]
fn game_over_selection_keys() {
    let over = GameStatus::GameOver(GameOverMenu::Restart);
    assert_eq!(playing_input_step(over, Key::Right).status, GameStatus::GameOver(GameOverMenu::Menu));
    assert_eq!(playing_input_step(over, Key::Enter).status, GameStatus::Restarting);
    let to_menu = playing_input_step(GameStatus::GameOver(GameOverMenu::Menu), Key::Enter);
    assert_eq!((to_menu.status, to_menu.stop), (GameStatus::Menu, true));
    let bye = playing_input_step(GameStatus::GameOver(GameOverMenu::Quit), Key::End);
    assert_eq!((bye.status, bye.stop), (GameStatus::ByeBye, true));
}
