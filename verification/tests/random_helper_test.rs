use rsnaker::options::LogLevel;
use rsnaker::options::Speed;
use rsnaker::random_helper::{generate_random_game_options, options_from_draws, other_index, speed_for_roll, weighted_choice, weighted_range};
use unicode_segmentation::UnicodeSegmentation;

#[test]
fn test_weighted_range_bounds() {
    let ranges = [(50, 5..=10), (50, 20..=30)];
    for _ in 0..100 {
        let val = weighted_range(&ranges);
        assert!((5..=10).contains(&val) || (20..=30).contains(&val));
    }
}

#[test]
fn test_generate_random_game_options() {
    for _ in 0..100 {
        let opt = generate_random_game_options();
        assert!(opt.snake_length >= 2 && opt.snake_length <= 999);
        assert!(opt.life >= 1 && opt.life <= 99);
        assert!(opt.nb_of_fruits >= 1 && opt.nb_of_fruits <= 999);
        assert!(opt.fruit_duration_seconds >= 1 && opt.fruit_duration_seconds <= 60);
        assert!(opt.snake_growth_factor >= 1 && opt.snake_growth_factor <= 10);
        assert_eq!(opt.head_symbol.graphemes(true).count(), 1);
        assert_eq!(opt.body_symbol.graphemes(true).count(), 1);
        assert_ne!(opt.head_symbol, opt.body_symbol);
        assert!(opt.caps_fps);
        assert_eq!(opt.log_level, LogLevel::Off);
        assert!(
            opt.random,
            "Generated options must have random flag set to true"
        );
        assert_eq!(opt.no_fruit_timer, !opt.fruit_timer);
        assert_eq!(opt.no_negative_size_fruits, !opt.negative_size_fruits);
    }
}

#[test]
fn random_options_stay_in_the_weighted_ranges() {
    for _ in 0..200 {
        let opt = generate_random_game_options();
        assert!((3..=300).contains(&opt.snake_length));
        assert!((1..=50).contains(&opt.life));
        assert!((1..=100).contains(&opt.nb_of_fruits));
        assert!((5..=60).contains(&opt.fruit_duration_seconds));
        assert!((1..=6).contains(&opt.snake_growth_factor));
        assert!(opt.load.is_none());
        assert!(!opt.no_caps_fps);
    }
}

#[test]
fn a_single_value_range_gives_that_value() {
    assert_eq!(weighted_range(&[(1, 7..=7)]), 7);
    assert_eq!(weighted_range(&[(0, 1..=1), (3, 9..=9)]), 9);
    #[allow(clippy::reversed_empty_ranges)]
    let with_empty_unweighted = [(0u32, 5u16..=1u16), (3, 9..=9)];
    assert_eq!(weighted_range(&with_empty_unweighted), 9);
}

#[test]
fn weighted_choice_by_cumulative_weight() {
    let choices = [(45, 3..=12), (30, 13..=30), (15, 31..=75), (7, 76..=150), (3, 151..=300)];
    assert_eq!(weighted_choice(&choices, 1), 0);
    assert_eq!(weighted_choice(&choices, 45), 0);
    assert_eq!(weighted_choice(&choices, 46), 1);
    assert_eq!(weighted_choice(&choices, 75), 1);
    assert_eq!(weighted_choice(&choices, 90), 2);
    assert_eq!(weighted_choice(&choices, 97), 3);
    assert_eq!(weighted_choice(&choices, 98), 4);
    assert_eq!(weighted_choice(&choices, 100), 4);
    assert_eq!(weighted_choice(&choices, 101), 0);
}

#[test]
fn speed_by_roll() {
    assert_eq!(speed_for_roll(1), Speed::Slow);
    assert_eq!(speed_for_roll(20), Speed::Slow);
    assert_eq!(speed_for_roll(21), Speed::Normal);
    assert_eq!(speed_for_roll(60), Speed::Normal);
    assert_eq!(speed_for_roll(61), Speed::Fast);
    assert_eq!(speed_for_roll(90), Speed::Fast);
    assert_eq!(speed_for_roll(91), Speed::Crazy);
    assert_eq!(speed_for_roll(100), Speed::Crazy);
}

#[test]
fn body_symbol_index_skips_the_head() {
    assert_eq!(other_index(5, 0), 0);
    assert_eq!(other_index(5, 4), 4);
    assert_eq!(other_index(5, 5), 6);
    assert_eq!(other_index(5, 36), 37);
    assert_eq!(other_index(0, 0), 1);
    assert_eq!(other_index(37, 36), 36);
}

#[test]
fn options_from_the_drawn_values() {
    let o = options_from_draws(95, 0, 0, 12, 3, 20, 30, 2, true, false);
    assert_eq!(o.speed, Speed::Crazy);
    assert_eq!((o.snake_length, o.life, o.nb_of_fruits, o.fruit_duration_seconds, o.snake_growth_factor), (12, 3, 20, 30, 2));
    assert!(o.fruit_timer && !o.no_fruit_timer);
    assert!(!o.negative_size_fruits && o.no_negative_size_fruits);
    assert!(o.caps_fps && !o.no_caps_fps);
    assert_eq!(o.log_level, LogLevel::Off);
    assert_eq!(o.load, None);
    assert!(o.random);
    assert_ne!(o.head_symbol, o.body_symbol);
    let clamped = options_from_draws(10, 1, 1, 1000, 0, 0, 61, 4, false, true);
    assert_eq!(clamped.speed, Speed::Slow);
    assert_eq!((clamped.snake_length, clamped.life, clamped.nb_of_fruits, clamped.fruit_duration_seconds), (999, 1, 1, 60));
    assert!(!clamped.fruit_timer && clamped.no_fruit_timer);
}
