[package]
name = "korlap"
version = "0.1.0"
edition = "2021"
publish = false

[dependencies]
base64 = "=0.22.1"
chrono = "=0.4.45"
futures-util = "=0.3.34"
getrandom = "=0.4.3"
keyring = "=3.6.3"
portable-pty = "=0.8.1"
reqwest = { version = "=0.12.28", features = ["json", "stream"] }
rusqlite = { version = "=0.31.0", features = ["bundled"] }
serde = { version = "=1.0.229", features = ["derive"] }
serde_json = "=1.0.154"
uuid = { version = "=1.29.0", features = ["v4"] }
