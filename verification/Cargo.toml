[package]
name = "tepegoz_tui"
version = "0.0.1"
edition = "2021"
publish = false

[dependencies]
anyhow = "1"
clap = { version = "4", features = ["derive"] }
crossterm = "0.29"
ctrlc = { version = "3", features = ["termination"] }
hex = "0.4"
ratatui = "0.30"
sha2 = "0.10"
tokio = { version = "1", features = ["io-std", "io-util", "macros", "net", "process", "rt-multi-thread", "signal", "sync", "time"] }
tracing = "0.1"
tracing-subscriber = { version = "0.3", features = ["env-filter"] }
vt100 = "0.16"
