[package]
name = "gaucho_tracker"
version = "0.1.0"
edition = "2021"
publish = false

[dependencies]
rodio = "0.17"
crossbeam-channel = "0.5"
log = "0.4"
env_logger = "0.10"
toml = "0.8"
serde = { version = "1", features = ["derive"] }
serde_json = "1"
dirs = "5"
chrono = "0.4"
crossterm = "0.27"
ratatui = "0.26"
