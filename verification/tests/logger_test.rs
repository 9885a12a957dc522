use rsnaker::logger::{log_filter_directive, LogConfig, DEFAULT_LOG_CONFIG_PATH};
use rsnaker::options::LogLevel;

#[test]
fn test_default_log_level() {
    assert_eq!(LogLevel::default(), LogLevel::Off);
}

#[test]
fn test_log_config_defaults() {
    let cfg = LogConfig::default();
    assert_eq!(cfg.level, LogLevel::Off);
    assert_eq!(cfg.file_name, "snake.log");
    assert!(cfg.with_line_number);
    assert!(cfg.with_file);
}

#[test]
fn log_config_default_formatting() {
    let cfg = LogConfig::default();
    assert_eq!(cfg.time_format, "[hour]:[minute]:[second].[subsecond digits:6]");
    assert!(!cfg.with_ansi && !cfg.with_target && !cfg.with_thread_ids);
    assert!(cfg.with_thread_names && cfg.with_level);
    assert_eq!(DEFAULT_LOG_CONFIG_PATH, "snake_log_config.toml");
}

#[test]
fn log_filters_silence_the_score_store() {
    assert_eq!(log_filter_directive(LogLevel::Debug), "rsnaker=debug,sled=off");
    assert_eq!(log_filter_directive(LogLevel::Off), "rsnaker=off,sled=off");
}
