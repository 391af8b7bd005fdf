[package]
name = "leaderboard"
version = "0.1.0"
edition = "2021"
publish = false

[dependencies]
dotenv = "0.15"
mysql = "*"
serde = { version = "1", features = ["derive"] }
serde_json = "1"
