[package]
name = "backend"
version = "0.1.0"
edition = "2021"
publish = false

[dependencies]
chrono = "0.4"
dotenv = "0.15"
env_logger = "0.10"
log = "0.4"
r2d2 = "0.8"
r2d2_sqlite = "*"
rand = "0.8"
reqwest = { version = "0.11", default-features = false, features = ["json"] }
rocket = { version = "0.5", features = ["json"] }
rocket_cors = "0.6"
rusqlite = { version = "*", features = ["bundled"] }
serde = { version = "1", features = ["derive"] }
serde_json = "1"
thiserror = "1"
tokio = { version = "1", features = ["rt-multi-thread", "macros", "time", "sync"] }
urlencoding = "2"
validator = { version = "0.16", features = ["derive"] }
warp = { version = "0.3", default-features = false }
