[package]
name = "oplus_combat"
version = "0.1.0"
edition = "2021"
publish = false

[dependencies]
bevy = { version = "=0.17.3", default-features = false, features = ["std", "bevy_state", "bevy_log", "bevy_window"] }
chrono = "=0.4.45"
rand = "=0.8.8"
serde = { version = "=1.0.229", features = ["derive"] }
serde_json = "=1.0.154"
