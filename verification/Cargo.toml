[package]
name = "hemdaimail"
version = "0.1.0"
edition = "2021"
publish = false

[dependencies]
ammonia = "=4.2.4"
argon2 = "=0.5.3"
async-imap = { version = "=0.9.7", default-features = false, features = ["runtime-async-std"] }
async-native-tls = "=0.5.0"
async-std = "=1.13.2"
axum = { version = "=0.7.9", features = ["ws"] }
axum-extra = { version = "=0.9.6", features = ["cookie"] }
chrono = "=0.4.45"
dotenv = "=0.15.0"
futures-util = "=0.3.34"
jsonwebtoken = { version = "=9.3.1", default-features = false }
lettre = { version = "=0.11.23", default-features = false, features = ["builder", "smtp-transport", "rustls-tls"] }
mailparse = "=0.15.0"
meilisearch-sdk = "=0.27.1"
metrics-exporter-prometheus = { version = "=0.15.3", default-features = false, features = ["http-listener"] }
rand = "=0.8.8"
redis = { version = "=0.25.5", default-features = false, features = ["aio", "tokio-comp"] }
serde = { version = "=1.0.229", features = ["derive"] }
serde_json = { version = "=1.0.154", features = ["raw_value"] }
sqlx = { version = "=0.7.4", default-features = false, features = ["runtime-tokio", "postgres", "uuid", "chrono", "macros"] }
tokio = { version = "=1.54.1", features = ["full"] }
tower_governor = "=0.4.3"
tower-http = { version = "=0.5.2", features = ["request-id", "trace"] }
tracing = "=0.1.44"
tracing-subscriber = { version = "=0.3.23", default-features = false, features = ["fmt", "std"] }
uuid = { version = "=1.29.0", features = ["v4", "serde"] }
