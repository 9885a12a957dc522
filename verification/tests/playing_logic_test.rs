use rsnaker::fruits_manager::FruitsManager;
use rsnaker::geometry::{GameMap, Position, Rect};
use rsnaker::playing_logic::{bite, eaten_fruits_effect, play_tick_at, tick_action, FruitsEffect, TickAction, TickOutcome};
use rsnaker::sprites::fruit::Fruit;
use rsnaker::state::{GameOverMenu, GameState, GameStatus};

fn fruit(score: i32, size: i16) -> Fruit {
    Fruit::new(score, size, Position { x: 2, y: 2 }, "🍎", 5, true, 0)
}

#[test]
fn tick_actions_by_status() {
    assert_eq!(tick_action(GameStatus::Playing), TickAction::Advance);
    assert_eq!(tick_action(GameStatus::Restarting), TickAction::Restart);
    assert_eq!(tick_action(GameStatus::ByeBye), TickAction::Stop);
    assert_eq!(tick_action(GameStatus::Menu), TickAction::Stop);
    assert_eq!(tick_action(GameStatus::Paused), TickAction::Wait);
    assert_eq!(tick_action(GameStatus::GameOver(GameOverMenu::Quit)), TickAction::Wait);
}

#[test]
fn eaten_fruits_add_their_scores_times_the_modifier() {
    let eaten = vec![fruit(50, 15), fruit(-10, -40)];
    assert_eq!(
        eaten_fruits_effect(10, &eaten, 2, true),
        FruitsEffect { score: 90, size_change: Some(-25) }
    );
}

#[test]
fn shrinking_is_skipped_when_negative_fruits_are_disabled() {
    let eaten = vec![fruit(-50, -150)];
    assert_eq!(
        eaten_fruits_effect(10, &eaten, 1, false),
        FruitsEffect { score: 0, size_change: None }
    );
    assert_eq!(eaten_fruits_effect(10, &[fruit(5, 0)], 1, false).size_change, None);
    assert_eq!(eaten_fruits_effect(10, &[fruit(5, 3)], 1, false).size_change, Some(3));
}

#[test]
fn the_score_stays_within_bounds() {
    assert_eq!(eaten_fruits_effect(u32::MAX - 10, &[fruit(200, 25)], 4, true).score, u32::MAX);
    assert_eq!(eaten_fruits_effect(0, &[fruit(-50, 0)], 4, true).score, 0);
    assert_eq!(eaten_fruits_effect(7, &[], 4, true), FruitsEffect { score: 7, size_change: Some(0) });
}

#[test]
fn a_bite_costs_a_life_and_the_last_one_ends_the_game() {
    let mut s = GameState::new(2);
    assert!(!bite(&mut s));
    assert_eq!(s.life, 1);
    assert_eq!(s.status, GameStatus::Playing);
    assert!(bite(&mut s));
    assert_eq!(s.life, 0);
    assert_eq!(s.status, GameStatus::GameOver(GameOverMenu::Restart));
    assert!(bite(&mut s));
    assert_eq!(s.life, 0);
}

#[test]
fn a_tick_eats_the_fruits_at_the_head_and_replaces_them() {
    let mut manager = FruitsManager::new(3, GameMap::new(2, Rect::new(0, 0, 160, 12)), true, 5);
    let head = Position { x: 1, y: 0 };
    manager.fruits[0] = Fruit::new(10, 5, head, "🍐", 5, true, 0);
    manager.fruits[2] = Fruit::new(20, -40, head, "🥥", 5, true, 0);
    let kept = manager.fruits[1].clone();
    let mut state = GameState::new(2);
    let o = play_tick_at(&mut state, &mut manager, &head, false, 2, true, 1_000);
    assert_eq!(state.score, 60);
    assert_eq!(state.life, 2);
    assert_eq!(o, TickOutcome { size_change: Some(-35), game_over: false });
    assert_eq!(manager.fruits.len(), 3);
    assert!(manager.fruits[0] == kept);
    for f in manager.get_fruits() {
        assert!(f.get_position() != head);
    }
}

#[test]
fn a_tick_with_a_bite_on_the_last_life_ends_the_game() {
    let mut manager = FruitsManager::new(2, GameMap::new(2, Rect::new(0, 0, 160, 12)), true, 5);
    let before = manager.fruits.clone();
    let head = Position { x: 1, y: 0 };
    let mut state = GameState::new(1);
    state.score = 7;
    let o = play_tick_at(&mut state, &mut manager, &head, true, 1, false, 0);
    assert_eq!(o, TickOutcome { size_change: None, game_over: true });
    assert_eq!((state.life, state.score), (0, 7));
    assert_eq!(state.status, GameStatus::GameOver(GameOverMenu::Restart));
    assert!(manager.fruits == before);
}
