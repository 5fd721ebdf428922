[package]
name = "oven_tui"
version = "0.1.0"
edition = "2021"
publish = false

[dependencies]
arboard = { version = "=3.7.0", default-features = false }
base64 = "=0.23.1"
clap = { version = "=4.6.7", features = ["derive", "env"] }
crossterm = { version = "=0.29.0", features = ["event-stream"] }
futures = "=0.3.34"
ratatui = "=0.30.2"
serde_json = "=1.0.154"
tokio = { version = "=1.54.1", features = ["macros", "rt-multi-thread", "sync", "time"] }
tui-textarea-2 = "=0.12.1"
unicode-width = "=0.2.3"
