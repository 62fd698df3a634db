[package]
name = "keel"
version = "0.1.0"
edition = "2021"
publish = false

[dependencies]
sha2 = "=0.10.9"
ed25519-dalek = { version = "=2.2.0", features = ["rand_core"] }
rand = "=0.8.8"
hex = "=0.4.3"
getrandom = "=0.2.17"
lightning-invoice = { version = "=0.33.3", features = ["std"] }
lightning-types = "=0.2.12"
bitcoin = "=0.32.102"
serde = { version = "=1.0.229", features = ["derive"] }
serde_json = "=1.0.154"
thiserror = "=2.0.21"
anyhow = "=1.0.104"
async-trait = "=0.1.92"
base64 = "=0.22.1"
clap = { version = "=4.6.7", features = ["derive", "env"] }
tokio = { version = "=1.54.1", features = ["full"] }
axum = "=0.8.9"
tower-http = { version = "=0.6.11", features = ["cors"] }
reqwest = { version = "=0.12.28", default-features = false, features = ["json", "rustls-tls"] }
rusqlite = { version = "=0.32.1", features = ["bundled"] }
