[package]
name = "api"
version = "0.1.0"
edition = "2021"
publish = false

[dependencies]
ed25519-dalek = { version = "2", features = ["rand_core"] }
k256 = "0.13"
sha2 = "0.10"
hmac = "0.12"
hex = "0.4"
base64 = "0.22"
stellar-strkey = "*"
rand = "0.8"
chrono = "0.4"
serde = { version = "1", features = ["derive"] }
serde_json = "1"
lru = "0.12"
uuid = { version = "1", features = ["v4", "serde"] }
jsonwebtoken = "9"
tokio = { version = "1", features = ["rt-multi-thread", "macros", "time", "sync"] }
tracing = "0.1"
thiserror = "1"
reqwest = { version = "0.12", default-features = false, features = ["json"] }
anyhow = "1"
