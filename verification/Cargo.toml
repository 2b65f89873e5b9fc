[package]
name = "sccache_dist"
version = "0.1.0"
edition = "2021"
publish = false

[dependencies]
anyhow = "1"
base64 = "0.21"
clap = { version = "4", features = ["derive"] }
env_logger = "0.11"
jsonwebtoken = { version = "9", default-features = false }
log = "0.4"
opendal = { version = "0.54", default-features = false }
rand = "0.8"
reqwest = { version = "0.12", default-features = false }
serde = { version = "1", features = ["derive"] }
serde_json = "1"
tokio = { version = "1", features = ["rt", "time", "macros"] }
