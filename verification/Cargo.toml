[package]
name = "shade"
version = "0.1.0"
edition = "2021"
publish = false

[dependencies]
anyhow = "=1.0.104"
chrono = "=0.4.45"
clap = { version = "=4.6.7", features = ["derive"] }
crossterm = "=0.28.1"
dirs = "=5.0.1"
ratatui = "=0.29.0"
rusqlite = { version = "=0.32.1", features = ["bundled"] }
serde = { version = "=1.0.229", features = ["derive"] }
serde_json = "=1.0.154"
serde_yaml = "=0.9.34"
x11rb = { version = "=0.13.2", features = ["screensaver"] }
