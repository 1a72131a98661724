[package]
name = "dmarcontrol"
version = "0.1.0"
edition = "2021"
publish = false

[dependencies]
axum = { version = "0.7", features = ["multipart"] }
base64 = "0.22"
chrono = { version = "0.4", features = ["serde"] }
flate2 = "1"
imap = "2"
mailparse = "0.15"
maxminddb = "*"
native-tls = "0.2"
openssl = "0.10"
percent-encoding = "2"
quick-xml = { version = "*", features = ["serialize"] }
rusqlite = "*"
serde = { version = "1", features = ["derive"] }
serde_json = "1"
serde_urlencoded = "0.7"
thiserror = "2"
tokio = { version = "1", features = ["full"] }
tracing = "0.1"
tracing-subscriber = { version = "0.3", features = ["env-filter"] }
zip = { version = "*", default-features = false, features = ["deflate"] }
