use rsnaker::geometry::Position;
use rsnaker::sprites::fruit::{fruit_kind, fruit_kind_for_roll, Fruit, FRUIT_KINDS_COUNT};

fn p() -> Position {
    Position { x: 5, y: 10 }
}

#[test]
fn fruit_keeps_what_it_was_made_with() {
    let apple = Fruit::new(40, 2, p(), "🍎", 5, true, 0);
    assert_eq!(apple.get_score(), 40);
    assert_eq!(apple.get_grow_snake(), 2);
    assert!(apple.is_at_position(&p()));
    assert!(!apple.is_at_position(&Position { x: 6, y: 10 }));
    assert_eq!(apple.get_image(), "🍎");
    assert!(apple.is_timer_enabled());
}

#[test]
fn lifetime_grows_with_positive_size_effect_up_to_twice() {
    let base = 5_000_000_000;
    assert_eq!(Fruit::duration_from_base(base, 0), 5_000_000_000);
    assert_eq!(Fruit::duration_from_base(base, 15), 6_500_000_000);
    assert_eq!(Fruit::duration_from_base(base, 50), 10_000_000_000);
    assert_eq!(Fruit::duration_from_base(base, 100), 10_000_000_000);
}

#[test]
fn lifetime_shrinks_with_negative_size_effect_down_to_half() {
    let base = 3_000_000_000;
    assert_eq!(Fruit::duration_from_base(base, -40), 2_600_000_000);
    assert_eq!(Fruit::duration_from_base(base, -150), 1_500_000_000);
    assert_eq!(Fruit::duration_from_base(base, -300), 1_500_000_000);
}

#[test]
fn remaining_time_counts_down_and_expires() {
    let f = Fruit::new(10, 0, p(), "🍇", 2, true, 1_000);
    assert_eq!(f.remaining_time(1_000), Some(2_000_000_000));
    assert_eq!(f.remaining_time(500_001_000), Some(1_500_000_000));
    assert!(!f.is_expired(2_000_000_999));
    assert!(f.is_expired(2_000_001_000));
    assert_eq!(f.remaining_time(2_000_001_000), Some(0));
    assert_eq!(f.remaining_time(3_000_001_000), None);
}

#[test]
fn disabled_timer_never_expires() {
    let f = Fruit::new(10, 0, p(), "🍇", 0, false, 0);
    assert!(!f.is_expired(u64::MAX));
    assert_eq!(f.remaining_time(10), None);
}

#[test]
fn pause_then_resume_at_the_same_instant_changes_nothing() {
    let mut f = Fruit::new(10, 0, p(), "🍇", 2, true, 0);
    let before = f.clone();
    f.set_timer_paused(true, 700);
    assert!(!f.is_expired(u64::MAX));
    f.set_timer_paused(false, 700);
    assert!(f == before);
}

#[test]
fn time_spent_paused_does_not_count() {
    let mut f = Fruit::new(10, 0, p(), "🍇", 2, true, 0);
    f.set_timer_paused(true, 1_000_000_000);
    assert_eq!(f.time_elasped_with_breaks_sub(5_000_000_000), 1_000_000_000);
    f.set_timer_paused(false, 5_000_000_000);
    assert_eq!(f.time_elasped_with_breaks_sub(5_500_000_000), 1_500_000_000);
    assert!(!f.is_expired(5_999_999_999));
    assert!(f.is_expired(6_000_000_000));
}

#[test]
fn set_position_moves_the_fruit() {
    let mut f = Fruit::new(10, 0, p(), "🍇", 2, true, 0);
    f.set_position(Position { x: 1, y: 2 });
    assert_eq!(f.get_position(), Position { x: 1, y: 2 });
}

#[test]
fn duplicate_is_equal() {
    let f = Fruit::new(10, 0, p(), "🍇", 2, true, 0);
    assert!(f.duplicate() == f);
}

#[test]
fn lottery_rolls_pick_kinds_by_cumulative_chance() {
    let expected = [(1, 0), (5, 0), (6, 1), (10, 1), (11, 2), (14, 2), (15, 3), (24, 3), (25, 4), (34, 4),
        (35, 5), (49, 5), (50, 6), (64, 6), (65, 7), (79, 7), (80, 8), (94, 8), (95, 9), (99, 9), (100, 10)];
    for (roll, kind) in expected {
        assert_eq!(fruit_kind_for_roll(roll), kind);
    }
    assert_eq!(fruit_kind_for_roll(0), 0);
    assert_eq!(fruit_kind_for_roll(101), 0);
}

#[test]
fn the_chances_add_up_to_one_hundred() {
    let mut total = 0;
    for i in 0..FRUIT_KINDS_COUNT {
        total += fruit_kind(i).probability;
    }
    assert_eq!(total, 100);
    assert_eq!(fruit_kind(0).image, "🦞");
    assert_eq!(fruit_kind(10).score, 200);
}

#[test]
fn moves_and_pauses_keep_score_and_size_effect() {
    let mut f = Fruit::new(75, 15, Position { x: 4, y: 2 }, "🍈", 5, true, 0);
    f.set_position(Position { x: 8, y: 3 });
    f.set_timer_paused(true, 100);
    f.set_position(Position { x: 10, y: 1 });
    f.set_timer_paused(false, 250);
    f.set_timer_paused(false, 300);
    assert_eq!(f.get_score(), 75);
    assert_eq!(f.get_grow_snake(), 15);
    assert_eq!(f.get_position(), Position { x: 10, y: 1 });
}
