[package]
name = "verifiers"
version = "0.1.0"
edition = "2021"
publish = false

[dependencies]
unicode-width = "*"
crossterm = "*"
ratatui = "*"
tokio = { version = "*", features = ["macros", "rt-multi-thread", "process", "sync", "time"] }
serde = { version = "*", features = ["derive"] }
serde_json = "*"
dirs = "*"
uuid = { version = "*", features = ["v4"] }
