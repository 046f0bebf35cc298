[package]
name = "typr_lib"
version = "0.1.0"
edition = "2021"
publish = false

[dependencies]
regex = "=1.13.1"
time = { version = "=0.3.55", features = ["parsing", "formatting"] }
serde = { version = "=1.0.229", features = ["derive"] }
serde_json = "=1.0.154"
rusqlite = { version = "=0.31.0", features = ["bundled"] }
thiserror = "=1.0.69"
uuid = { version = "=1.29.0", features = ["v4"] }
dirs = "=5.0.1"
tokio = { version = "=1.54.1", features = ["rt-multi-thread", "time", "process", "macros"] }
reqwest = { version = "=0.12.28", default-features = false, features = ["json", "rustls-tls", "stream", "multipart"] }
futures-util = "=0.3.34"
keyring = { version = "3", features = ["windows-native"] }
tracing = "0.1"
tracing-subscriber = { version = "0.3", features = ["env-filter", "fmt"] }
tracing-appender = "0.2"
