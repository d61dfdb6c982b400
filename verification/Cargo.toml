[package]
name = "json_translate"
version = "0.1.0"
edition = "2021"
publish = false

[dependencies]
anyhow = "1"
chrono = "0.4"
crossterm = "0.25"
serde = { version = "1", features = ["derive"] }
serde_json = "1"
toml = "0.8"
tui = "0.19"
