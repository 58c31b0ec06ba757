[package]
name = "muuzika"
version = "0.1.0"
edition = "2021"
publish = false

[dependencies]
jsonwebtoken = "9"
rand = "0.8"
nanoid = "0.4"
chrono = "0.4"
serde = { version = "1", features = ["derive"] }
serde_json = "1"
tokio = { version = "1", features = ["macros", "rt-multi-thread", "sync", "time"] }
tokio-stream = "0.1"
futures-util = "0.3"
warp = "0.3"
log = "0.4"
pretty_env_logger = "0.5"
