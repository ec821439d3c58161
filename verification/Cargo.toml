[package]
name = "bff"
version = "0.1.0"
edition = "2021"
publish = false

[dependencies]
aes-gcm = "0.10"
anyhow = "1"
argon2 = "0.5"
axum = { version = "0.7", features = ["ws", "macros"] }
base64 = "0.22"
figment = { version = "0.10", features = ["yaml", "env"] }
futures = "0.3"
humantime = "2"
ipnet = "2"
moka = { version = "0.12", features = ["future"] }
openidconnect = "3.5"
percent-encoding = "2"
petgraph = "0.6"
reqwest = { version = "0.11", default-features = false, features = ["json", "stream", "rustls-tls"] }
rhai = { version = "1", features = ["serde", "sync"] }
serde = { version = "1", features = ["derive"] }
serde_json = "1"
serde_yaml = "0.9"
sha2 = "0.10"
tokio = { version = "1", features = ["full"] }
tokio-tungstenite = "0.21"
tower = { version = "0.4", features = ["util"] }
tower_governor = "0.4"
tower-http = { version = "0.5", features = ["cors", "trace", "request-id", "fs", "limit", "util"] }
tower-sessions = "0.12"
tracing = "0.1"
url = "2"
