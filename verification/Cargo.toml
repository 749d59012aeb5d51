[package]
name = "qmsrs"
version = "0.1.0"
edition = "2021"
publish = false

[dependencies]
aes-gcm = "0.10"
ring = "0.17"
hex = "0.4"
uuid = { version = "1", features = ["v4"] }
chrono = "0.4"
argon2 = "0.5"
rusqlite = { version = "*", features = ["bundled"] }
r2d2 = "*"
r2d2_sqlite = "*"
serde = { version = "1", features = ["derive"] }
serde_json = "1"
toml = "*"
clap = { version = "4", features = ["derive"] }
