[package]
name = "basalto_tui"
version = "0.1.0"
edition = "2021"
publish = false

[dependencies]
dirs = "6"
ratatui = "0.29"
crossterm = "0.28"
serde = { version = "1", features = ["derive"] }
toml = "0.8"
