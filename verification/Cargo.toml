[package]
name = "agent-reach"
version = "0.1.0"
edition = "2021"
publish = false

[dependencies]
agent-id = "=0.1.0"
agent-id-handshake = "=0.1.0"
nostr = "=0.45.5"
urlencoding = "=2.1.3"
hex = "=0.4.3"
base64 = "=0.23.1"
chrono = "=0.4.45"
sha2 = "=0.10.9"
getrandom = "=0.3.4"
serde = { version = "=1.0.229", features = ["derive"] }
serde_json = "=1.0.154"
anyhow = "=1.0.104"
thiserror = "=2.0.21"
parking_lot = "=0.13.0"
axum = "=0.8.9"
tokio = { version = "=1.54.1", features = ["full"] }
tower-http = { version = "=0.7.1", features = ["trace"] }
tracing = "=0.1.44"
tracing-subscriber = { version = "=0.3.23", features = ["env-filter"] }
clap = { version = "=4.6.7", features = ["derive", "env"] }
reqwest = { version = "=0.13.5", default-features = false, features = ["json"] }
directories = "=6.0.0"
redis = { version = "=1.8.0", features = ["tokio-comp", "connection-manager"] }
nostr-sdk = "=0.45.4"
wasm-bindgen = "=0.2.129"
rmcp = { version = "*", features = ["server", "transport-io"] }
