[package]
name = "bad-adit"
version = "0.1.0"
edition = "2021"
publish = false

[dependencies]
dirs = "=5.0.1"
uuid = { version = "=1.29.0", features = ["v4"] }
getrandom = "=0.4.3"
serde = { version = "=1.0.229", features = ["derive"] }
serde_json = "=1.0.154"
log = "=0.4.35"
env_logger = { version = "=0.11.11", default-features = false }
tokio = { version = "=1.54.1", features = ["rt-multi-thread", "macros", "net", "process", "io-util", "sync", "time"] }
tauri = { version = "=2.12.5", default-features = false, features = ["tray-icon"] }
