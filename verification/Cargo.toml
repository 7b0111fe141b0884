[package]
name = "trade_copier"
version = "0.1.0"
edition = "2021"
publish = false

[dependencies]
actix-web = "4"
chrono = { version = "0.4", features = ["serde"] }
dotenv = "0.15"
env_logger = "*"
log = "0.4"
r2d2 = "0.8"
r2d2_sqlite = "*"
rusqlite = "*"
serde = { version = "1", features = ["derive"] }
thiserror = "1"
