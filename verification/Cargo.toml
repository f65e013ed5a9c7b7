[package]
name = "ethos_vault"
version = "0.1.0"
edition = "2021"
publish = false

[dependencies]
axum = "0.7"
chrono = "0.4"
hmac = "0.12"
reqwest = { version = "0.12", default-features = false }
rusqlite = "0.31"
serde = { version = "1", features = ["derive"] }
serde_json = "1"
sha2 = "0.10"
soroban-sdk = "22"
tokio = { version = "1", features = ["rt", "time"] }
tracing = "0.1"
uuid = { version = "1", features = ["v4"] }
