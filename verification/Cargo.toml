[package]
name = "bluetui"
version = "0.1.0"
edition = "2021"
publish = false

[dependencies]
async-channel = "*"
tokio = { version = "*", features = ["full"] }
futures = "*"
bluer = { version = "*", features = ["bluetoothd"] }
ratatui = "*"
crossterm = "*"
clap = { version = "*", features = ["cargo"] }
serde = { version = "*", features = ["derive"] }
toml = "*"
dirs = "*"
terminal-light = "*"
