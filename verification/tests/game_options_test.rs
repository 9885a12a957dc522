use rsnaker::options::{
    clamp_to, default_false, get_parameter_range, parse_interval, log_level_to_str, parameter_range, preset_file_content,
    preset_file_name, pretty, GameOptions, LogLevel, RangedParameter, DISPLAYABLE_EMOJI_COUNT, PARAMS_HEADER,
};
use unicode_segmentation::UnicodeSegmentation;

#[test]
fn test_validates() {
    let mut options = GameOptions::default();
    // Values above max
    options.snake_length = 1000;
    options.life = 100;
    options.nb_of_fruits = 1000;
    options.load = Some(8);
    options.validate();
    assert_eq!(options.snake_length, 999);
    assert_eq!(options.life, 99);
    assert_eq!(options.nb_of_fruits, 999);
    assert_eq!(options.load, Some(7));

    // Values below or at min
    options.snake_length = 1;
    options.life = 0;
    options.nb_of_fruits = 0;
    options.load = Some(0);
    options.validate();
    assert_eq!(options.snake_length, 2);
    assert_eq!(options.life, 1);
    assert_eq!(options.nb_of_fruits, 1);
    assert_eq!(options.load, Some(1));
}

#[test]
fn test_validate_symbols() {
    let mut options = GameOptions::default();
    options.head_symbol = "invalid".to_string();
    options.body_symbol = String::new();
    options.validate();
    assert_eq!(options.head_symbol.graphemes(true).count(), 1);
    assert_eq!(options.body_symbol.graphemes(true).count(), 1);
}

#[test]
fn validate_replaces_bad_symbols_by_the_defaults() {
    let mut options = GameOptions::default();
    options.head_symbol = "ab".to_string();
    options.body_symbol = String::new();
    options.validate();
    assert_eq!(options.head_symbol, "🎄");
    assert_eq!(options.body_symbol, "❄️");
}

#[test]
fn validate_keeps_a_symbol_of_one_grapheme_of_several_chars() {
    let mut options = GameOptions::default();
    options.head_symbol = "❄️".to_string();
    options.body_symbol = "@".to_string();
    options.fruit_duration_seconds = 0;
    options.validate();
    assert_eq!(options.head_symbol, "❄️");
    assert_eq!(options.body_symbol, "@");
    assert_eq!(options.fruit_duration_seconds, 1);
}

#[test]
fn validating_twice_is_validating_once() {
    let mut options = GameOptions::default();
    options.snake_length = 5000;
    options.life = 0;
    options.validate();
    let (l, v) = (options.snake_length, options.life);
    options.validate();
    assert_eq!((options.snake_length, options.life), (l, v));
}

#[test]
fn parameter_ranges_by_name() {
    assert_eq!(get_parameter_range("snake-length"), Some((2, 999)));
    assert_eq!(get_parameter_range("SNAKE_LENGTH"), Some((2, 999)));
    assert_eq!(get_parameter_range("life"), Some((1, 99)));
    assert_eq!(get_parameter_range("nb-of-fruits"), Some((1, 999)));
    assert_eq!(get_parameter_range("fruit_duration_seconds"), Some((1, 60)));
    assert_eq!(get_parameter_range("presets"), Some((1, 7)));
    assert_eq!(get_parameter_range("speed"), None);
    assert_eq!(parameter_range(RangedParameter::Life), (1, 99));
}

#[test]
fn clamping_into_a_range() {
    let mut v = 0;
    clamp_to(&mut v, Some((1, 7)));
    assert_eq!(v, 1);
    let mut w = 9;
    clamp_to(&mut w, Some((1, 7)));
    assert_eq!(w, 7);
    let mut x = 9;
    clamp_to(&mut x, None);
    assert_eq!(x, 9);
}

#[test]
fn ranges_are_written_with_brackets() {
    assert_eq!(pretty((2, 999)), "[2-999]");
    assert!(!default_false());
}

#[test]
fn the_offered_symbols() {
    let all = GameOptions::emojis_iterator();
    assert_eq!(all.len(), DISPLAYABLE_EMOJI_COUNT);
    assert_eq!(all[0], "🍁");
    assert_eq!(all[37], "@");
    let hint = GameOptions::emojis_with_news_line();
    let lines: Vec<&str> = hint.split('\n').collect();
    assert_eq!(lines.len(), 2);
    assert_eq!(lines[0].chars().count(), 19);
    assert!(lines[1].starts_with("🦑"));
}

#[test]
fn the_initial_position() {
    let p = GameOptions::initial_position();
    assert_eq!((p.x, p.y), (50, 5));
}

#[test]
fn preset_files() {
    assert_eq!(preset_file_name(7), "snake_preset_7.toml");
    let content = preset_file_content("life = 3\n");
    assert!(content.starts_with(PARAMS_HEADER));
    assert!(content.ends_with("\nlife = 3\n"));
    assert!(PARAMS_HEADER.contains("# Snake Game Configuration"));
}

#[test]
fn log_level_names() {
    assert_eq!(log_level_to_str(LogLevel::Off), "off");
    assert_eq!(log_level_to_str(LogLevel::Trace), "trace");
}

#[test]
fn intervals_are_read_back() {
    assert_eq!(parse_interval("Defines the initial length [2-999]"), Some((2, 999)));
    assert_eq!(parse_interval(&pretty((1, 60))), Some((1, 60)));
    assert_eq!(parse_interval("[a][+3-07]]]"), Some((3, 7)));
    assert_eq!(parse_interval("5-6-7"), Some((5, 6)));
    assert_eq!(parse_interval("no interval"), None);
    assert_eq!(parse_interval("[-4]"), None);
    assert_eq!(parse_interval("[1-x]"), None);
    assert_eq!(parse_interval("[1-99999999999999999999999]"), None);
}
