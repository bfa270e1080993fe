[package]
name = "ragtg-bot"
version = "0.1.0"
edition = "2021"
rust-version = "1.95"
publish = false

[dependencies]
anyhow = "1"
async-stream = "0.3"
axum = { version = "0.7", default-features = false, features = ["http1", "json", "tokio"] }
base64 = "=0.22.1"
deadpool-redis = "0.18"
dptree = "0.3"
figment = { version = "0.10", features = ["toml", "env"] }
futures-util = "0.3"
hex = "=0.4.3"
prometheus = { version = "0.13", default-features = false }
qdrant-client = { version = "1", default-features = false }
reqwest = { version = "0.12", default-features = false, features = ["json", "stream", "rustls-tls"] }
serde = { version = "1", features = ["derive"] }
serde_json = "1"
sha2 = "=0.10.9"
sqlx = { version = "0.8", default-features = false, features = ["runtime-tokio", "sqlite", "migrate"] }
takecell = "=0.1.1"
teloxide = { version = "0.13", default-features = false, features = ["macros", "rustls", "ctrlc_handler"] }
thiserror = "2"
tokio = { version = "1", features = ["full"] }
tracing = "0.1"
tracing-subscriber = { version = "0.3", features = ["env-filter"] }
uuid = { version = "=1.29.0", features = ["v4", "v5"] }
