[package]
name = "vaultrs"
version = "0.1.0"
edition = "2021"
publish = false

[dependencies]
serde_json = "1"
chrono = "0.4"
base64 = "0.22"
serde = { version = "1", features = ["derive"] }
log = "0.4"
env_logger = "0.11"
image = "0.25"
bytes = "1"
reqwest = { version = "0.12", default-features = false, features = [] }
sea-orm = { version = "1", features = ["sqlx-sqlite", "runtime-tokio-rustls", "macros"] }
tokio = { version = "1", features = ["rt", "rt-multi-thread"] }

[dev-dependencies]
