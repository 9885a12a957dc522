[package]
name = "rsnaker"
version = "0.1.0"
edition = "2021"
publish = false

[dependencies]
rand = "*"
unicode-segmentation = "*"
ratatui = { version = "*", features = ["unstable-widget-ref"] }
crossterm = "*"
clap = { version = "4", features = ["derive"] }
serde = { version = "1", features = ["derive"] }
toml = "*"
sled = "*"
chrono = { version = "*", features = ["serde"] }
tracing = "*"
tracing-subscriber = { version = "*", features = ["env-filter", "local-time"] }
tracing-appender = "*"
time = { version = "*", features = ["formatting", "parsing", "local-offset"] }
