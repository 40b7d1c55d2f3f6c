[package]
name = "signal_tui"
version = "0.1.0"
edition = "2021"
publish = false

[dependencies]
crossterm = "=0.28.1"
notify-rust = "=4.18.2"
ratatui = { version = "=0.29.0", features = ["unstable-rendered-line-info"] }
serde_json = "=1.0.154"
