[package]
name = "oss-lma"
version = "0.1.0"
edition = "2021"
publish = false

[dependencies]
serde = { version = "=1.0.229", features = ["derive"] }
serde_json = "=1.0.154"
rusqlite = { version = "=0.41.1", features = ["bundled"] }
keyring = { version = "=3.6.3", features = ["apple-native"] }
hound = "=3.5.1"
tokio = { version = "=1.54.1", features = ["rt-multi-thread", "macros", "sync", "time", "net"] }
tokio-tungstenite = "=0.30.0"
futures-util = "=0.3.34"
urlencoding = "=2.1.3"
uuid = { version = "=1.29.0", features = ["v4"] }
thiserror = "=2.0.21"
