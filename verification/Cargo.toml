[package]
name = "curlrs"
version = "0.1.0"
edition = "2021"
publish = false

[dependencies]
serde = { version = "*", features = ["derive"] }
serde_json = "*"
reqwest = { version = "*", default-features = false }
tokio = { version = "*", features = ["rt-multi-thread", "sync"] }
ratatui = "*"
crossterm = "*"
chrono = "*"
arboard = { version = "*", default-features = false }
color-eyre = "*"
