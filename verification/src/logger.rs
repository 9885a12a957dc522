//! The logging configuration: its defaults, and the filter that keeps the
//! game's own log lines at the chosen level and silences the score store.
use vstd::prelude::*;
use crate::options::{LogLevel, spec_log_level_str, log_level_to_str};
use crate::text::push_str;

verus! {

/// Default path to the logging configuration file (separate from the game
/// options).
pub const DEFAULT_LOG_CONFIG_PATH: &'static str = "snake_log_config.toml";

/// The logging configuration: level, file name, time format, and which
/// details each log line shows.
#[derive(Debug, Clone)]
pub struct LogConfig {
    /// Logging level
    pub level: LogLevel,
    /// Name of the log file (written in the current directory)
    pub file_name: String,
    /// Time format string
    pub time_format: String,
    /// Colors in the log file
    pub with_ansi: bool,
    /// The module path (target) in each log line
    pub with_target: bool,
    /// Thread names in each log line
    pub with_thread_names: bool,
    /// Thread ids in each log line
    pub with_thread_ids: bool,
    /// Line numbers in each log line
    pub with_line_number: bool,
    /// Source file name in each log line
    pub with_file: bool,
    /// The log level in each log line
    pub with_level: bool,
}

impl Default for LogConfig {
    /// Logging off into `snake.log`, with microsecond times, thread names,
    /// line numbers, file names and levels, without colors, targets or
    /// thread ids.
    fn default() -> (c: LogConfig)
        ensures
            c.level == LogLevel::Off,
            c.file_name@ == "snake.log"@,
            c.time_format@ == "[hour]:[minute]:[second].[subsecond digits:6]"@,
            !c.with_ansi && !c.with_target && c.with_thread_names && !c.with_thread_ids,
            c.with_line_number && c.with_file && c.with_level,
    {
        LogConfig {
            level: LogLevel::Off,
            file_name: "snake.log".to_string(),
            time_format: "[hour]:[minute]:[second].[subsecond digits:6]".to_string(),
            with_ansi: false,
            with_target: false,
            with_thread_names: true,
            with_thread_ids: false,
            with_line_number: true,
            with_file: true,
            with_level: true,
        }
    }
}

/// The log filter for a level: the game's lines at that level, none of the
/// score store's.
pub open spec fn spec_log_filter_directive(level: LogLevel) -> Seq<char> {
    "rsnaker="@ + spec_log_level_str(level) + ",sled=off"@
}

/// The log filter for a level.
pub fn log_filter_directive(level: LogLevel) -> (s: String)
    ensures
        s@ == spec_log_filter_directive(level),
{
    let mut s = String::new();
    push_str(&mut s, "rsnaker=");
    push_str(&mut s, log_level_to_str(level));
    push_str(&mut s, ",sled=off");
    s
}

} // verus!
