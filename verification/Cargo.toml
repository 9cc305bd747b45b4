[package]
name = "discord-role-restore"
version = "0.1.0"
edition = "2021"
publish = false

[dependencies]
serde_json = "1"
chrono = "0.4"
rusqlite = { version = "0.31", features = ["bundled"] }
serenity = "0.12"
tokio = { version = "1", features = ["full"] }
axum = "0.7"
async-trait = "0.1"
