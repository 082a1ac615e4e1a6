[package]
name = "cue_shell"
version = "0.1.0"
edition = "2021"
publish = false

[dependencies]
base64 = "0.22"
ratatui = "0.30"
crossterm = "0.29"
tui-term = "*"
ansi-to-tui = "*"
tokio = { version = "1", features = ["sync", "rt", "rt-multi-thread", "process", "io-util", "time", "macros", "signal"] }
serde = { version = "1", features = ["derive"] }
serde_json = "1"
rusqlite = { version = "*", features = ["bundled"] }
libc = "0.2"
nvml-wrapper = "*"
anyhow = "1"
tracing = "0.1"
tracing-subscriber = "0.3"
