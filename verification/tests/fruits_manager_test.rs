use rsnaker::fruits_manager::{fruit_for_roll, FruitsManager};
use rsnaker::geometry::{GameMap, Position, Rect};
use rsnaker::sprites::fruit::Fruit;

fn mock_map() -> GameMap {
    GameMap::new(2, Rect::new(0, 0, 160, 12))
}

fn dummy_position() -> Position {
    Position { x: 10, y: 10 }
}

fn valid_spawn(m: &GameMap, p: &Position) -> bool {
    let cs = m.case_size;
    let mut max_x = (m.area.width / cs).saturating_sub(cs);
    let mut max_y = m.area.height.saturating_sub(1);
    if max_x <= 1 {
        max_x = 2;
    }
    if max_y <= 1 {
        max_y = 2;
    }
    p.x % cs == 0 && p.x / cs >= 1 && p.x / cs < max_x && p.y >= 1 && p.y < max_y
}

#[test]
fn test_new_creates_correct_number_of_fruits() {
    let map = mock_map();
    let manager = FruitsManager::new(5, map, true, 5);
    assert_eq!(manager.fruits.len(), 5);
}

#[test]
fn test_replace_fruits_removes_and_adds_new() {
    let map = mock_map();
    let mut manager = FruitsManager::new(3, map, true, 5);
    let fruits_to_remove = vec![manager.fruits[0].clone()];
    manager.replace_fruits(&fruits_to_remove);
    assert_eq!(manager.fruits.len(), 3);
    assert!(!manager.fruits.contains(&fruits_to_remove[0]));
}

#[test]
fn test_eat_some_fruits_returns_correct_fruit() {
    let map = mock_map();
    let mut manager = FruitsManager::new(3, map, true, 5);
    let fruit = Fruit::new(10, 1, dummy_position(), "🍎", 5, true, manager.now());
    manager.fruits[0] = fruit.clone();
    let result = manager.eat_some_fruits(&dummy_position());
    assert!(result.is_some());
    assert!(result.unwrap().contains(&fruit));
}

#[test]
fn test_eat_some_fruits_returns_none_if_no_fruit() {
    let map = mock_map();
    let manager = FruitsManager::new(3, map, true, 5);
    let result = manager.eat_some_fruits(&Position { x: 999, y: 999 });
    assert!(result.is_none());
}

#[test]
fn test_update_replaces_expired_fruit() {
    let map = mock_map();
    let mut manager = FruitsManager::new(1, map, true, 5);
    manager.fruits[0] = Fruit::new(10, 1, dummy_position(), "🍎", 0, true, manager.now());

    manager.update();

    assert_eq!(manager.fruits.len(), 1);
    assert!(!manager.fruits[0].is_expired(manager.now()));
}

#[test]
fn spawned_fruits_are_at_valid_positions() {
    let map = mock_map();
    let manager = FruitsManager::new(50, map, true, 5);
    for f in manager.get_fruits() {
        assert!(valid_spawn(&map, &f.get_position()));
    }
}

#[test]
fn replacing_nothing_keeps_the_fruits() {
    let mut manager = FruitsManager::new(4, mock_map(), true, 5);
    let before = manager.fruits.clone();
    manager.replace_fruits(&[]);
    assert!(manager.fruits == before);
}

#[test]
fn replacing_keeps_the_other_fruits_first_in_order() {
    let mut manager = FruitsManager::new(4, mock_map(), true, 5);
    let before = manager.fruits.clone();
    manager.replace_fruits(&[before[1].clone()]);
    assert_eq!(manager.fruits.len(), 4);
    assert!(manager.fruits[0] == before[0]);
    assert!(manager.fruits[1] == before[2]);
    assert!(manager.fruits[2] == before[3]);
}

#[test]
fn update_without_timer_changes_nothing() {
    let mut manager = FruitsManager::new(2, mock_map(), false, 5);
    manager.fruits[0] = Fruit::new(10, 1, dummy_position(), "🍎", 0, false, 0);
    let before = manager.fruits.clone();
    manager.update_at(u64::MAX);
    assert!(manager.fruits == before);
}

#[test]
fn update_at_keeps_fruits_that_have_not_expired() {
    let mut manager = FruitsManager::new(2, mock_map(), true, 5);
    manager.fruits[0] = Fruit::new(10, 1, dummy_position(), "🍎", 5, true, 1_000);
    manager.fruits[1] = Fruit::new(20, 8, dummy_position(), "🥝", 1, true, 0);
    let kept = manager.fruits[0].clone();
    // at 2 s the first fruit (spawned at 1 µs, 5.1 s of life) still lives
    manager.update_at(2_000_000_000);
    assert_eq!(manager.fruits.len(), 2);
    assert!(manager.fruits[0] == kept);
}

#[test]
fn eat_at_ignores_expired_fruits() {
    let mut manager = FruitsManager::new(2, mock_map(), true, 5);
    manager.fruits[0] = Fruit::new(10, 0, dummy_position(), "🍇", 1, true, 0);
    manager.fruits[1] = Fruit::new(20, 0, Position { x: 4, y: 4 }, "🍇", 1, true, 0);
    assert!(manager.eat_some_fruits_at(&dummy_position(), 500_000_000).is_some());
    assert!(manager.eat_some_fruits_at(&dummy_position(), 1_000_000_000).is_none());
}

#[test]
fn pausing_all_the_timers_at_an_instant() {
    let mut manager = FruitsManager::new(3, mock_map(), true, 5);
    manager.set_timer_paused_at(true, 42);
    for f in manager.get_fruits() {
        assert!(!f.is_expired(u64::MAX));
    }
    manager.set_timer_paused_at(false, 42);
    assert!(manager.get_fruits()[0].is_expired(u64::MAX));
}

#[test]
fn pausing_without_timer_changes_nothing() {
    let mut manager = FruitsManager::new(3, mock_map(), false, 5);
    let before = manager.fruits.clone();
    manager.set_timer_paused(true);
    assert!(manager.fruits == before);
}

#[test]
fn reset_to_terminal_size_moves_every_fruit_into_the_new_map() {
    let mut manager = FruitsManager::new(20, GameMap::new(2, Rect::new(0, 0, 200, 40)), true, 5);
    let before = manager.fruits.clone();
    let small = GameMap::new(2, Rect::new(0, 0, 20, 6));
    manager.reset_to_terminal_size(small);
    assert_eq!(manager.fruits.len(), 20);
    for (f, b) in manager.get_fruits().iter().zip(before.iter()) {
        assert!(valid_spawn(&small, &f.get_position()));
        assert_eq!(f.get_score(), b.get_score());
    }
}

#[test]
fn reset_keeps_the_number_of_fruits() {
    let mut manager = FruitsManager::new(7, mock_map(), true, 5);
    manager.reset();
    assert_eq!(manager.fruits.len(), 7);
}

#[test]
fn fruit_for_roll_follows_the_lottery() {
    let p = dummy_position();
    assert_eq!(fruit_for_roll(1, p, true, 5, 0).get_score(), -50);
    assert_eq!(fruit_for_roll(6, p, true, 5, 0).get_score(), -10);
    assert_eq!(fruit_for_roll(14, p, true, 5, 0).get_score(), 5);
    assert_eq!(fruit_for_roll(99, p, true, 5, 0).get_score(), 100);
    assert_eq!(fruit_for_roll(100, p, true, 5, 0).get_score(), 200);
    assert_eq!(fruit_for_roll(100, p, true, 5, 0).get_image(), "🍒");
    assert_eq!(fruit_for_roll(100, p, true, 5, 0).get_grow_snake(), 25);
}

#[test]
fn update_at_spawns_the_replacements_at_that_instant() {
    let mut manager = FruitsManager::new(2, mock_map(), true, 5);
    manager.fruits[0] = Fruit::new(10, 1, dummy_position(), "🍎", 0, true, 0);
    manager.fruits[1] = Fruit::new(20, 8, dummy_position(), "🥝", 0, true, 0);
    let now: u64 = 10_000_000_000;
    manager.update_at(now);
    assert_eq!(manager.fruits.len(), 2);
    for f in manager.get_fruits() {
        assert!(!f.is_expired(now));
        assert_eq!(f.time_elasped_with_breaks_sub(now), 0);
        assert_eq!(f.time_elasped_with_breaks_sub(now + 7), 7);
    }
}
