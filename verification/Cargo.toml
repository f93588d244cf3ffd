[package]
name = "axiom_islam"
version = "0.1.0"
edition = "2021"
publish = false

[dependencies]
uuid = { version = "*", features = ["v4"] }
chrono = "*"
sha2 = "*"
rand = "*"
serde = { version = "*", features = ["derive"] }
serde_json = "*"
bincode = { version = "*", features = ["derive"] }
log = "*"
env_logger = "*"
tokio = { version = "*", features = ["rt-multi-thread", "macros", "sync", "time", "signal"] }
