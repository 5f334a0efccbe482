[package]
name = "bootty"
version = "0.1.0"
edition = "2021"
publish = false

[dependencies]
aes-gcm = { version = "=0.10.3", features = ["std"] }
anyhow = "=1.0.104"
axum = "=0.7.9"
bs58 = "=0.5.1"
bytes = "=1.12.1"
chrono = "=0.4.45"
clap = { version = "=4.6.7", features = ["derive"] }
crossterm = "=0.28.1"
flate2 = "=1.1.10"
hex = "=0.4.3"
portable-pty = "=0.8.1"
rand = "=0.8.8"
reqwest = { version = "=0.12.28", default-features = false, features = ["rustls-tls"] }
serde = { version = "=1.0.229", features = ["derive"] }
serde_json = "=1.0.154"
sha2 = "=0.10.9"
tokio = { version = "=1.54.1", features = ["full"] }
tracing = "=0.1.44"
tracing-subscriber = { version = "=0.3.23", features = ["env-filter"] }
webrtc = "0.14"
