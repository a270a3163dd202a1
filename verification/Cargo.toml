[package]
name = "twir_bot"
version = "0.1.0"
edition = "2021"
publish = false

[dependencies]
regex = "1"
handlebars = "*"
humantime = "2"
chrono = "0.4"
serde_json = "1"
serde = { version = "1", features = ["derive"] }
serenity = "0.12"
tokio = { version = "1", features = ["full"] }
reqwest = { version = "0.12", default-features = false, features = ["json", "rustls-tls"] }
roux = "*"
bsky-sdk = "*"
atrium-api = "*"
anyhow = "1"
thiserror = "*"
tracing = "0.1"
tracing-subscriber = { version = "0.3", features = ["env-filter"] }
