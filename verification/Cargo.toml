[package]
name = "miden_clob"
version = "0.1.0"
edition = "2021"
publish = false

[dependencies]
base64 = "=0.22.1"
miden-client = { version = "=0.10.2", features = ["tonic", "sqlite"] }
miden-objects = "=0.10.1"
miden-lib = "=0.10.1"
tokio = { version = "=1.54.1", features = ["full"] }
axum = "=0.7.9"
tower-http = { version = "=0.6.11", features = ["cors"] }
serde = { version = "=1.0.229", features = ["derive"] }
serde_json = "=1.0.154"
rusqlite = { version = "0.36", features = ["bundled"] }
chrono = { version = "=0.4.45", features = ["serde"] }
uuid = { version = "=1.29.0", features = ["v4"] }
anyhow = "=1.0.104"
dotenv = "=0.15.0"
tracing = "=0.1.44"
tracing-subscriber = { version = "=0.3.23", features = ["env-filter"] }
rand = "=0.9.5"
reqwest = { version = "=0.12.28", default-features = false, features = ["json", "rustls-tls-webpki-roots-no-provider"] }
