[package]
name = "loomra_core"
version = "0.1.0"
edition = "2021"
publish = false

[dependencies]
argon2 = "*"
serde_json = "*"
serde = { version = "*", features = ["derive"] }
rusqlite = { version = "*", features = ["bundled"] }
r2d2 = "*"
r2d2_sqlite = "*"
chrono = "*"
thiserror = "*"
