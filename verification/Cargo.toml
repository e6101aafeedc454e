[package]
name = "cunzhi"
version = "0.1.0"
edition = "2021"
publish = false

[dependencies]
ring = "=0.17.14"
hex = "=0.4.3"
uuid = { version = "=1.29.0", features = ["v4"] }
base64 = "=0.13.1"
serde = { version = "=1.0.229", features = ["derive"] }
serde_json = "=1.0.154"
chrono = "=0.4.45"
tokio = { version = "1", features = ["rt-multi-thread", "macros", "time", "process", "io-std", "io-util", "net", "sync"] }
reqwest = { version = "0.12", default-features = false, features = ["json", "rustls-tls"] }
rmcp = { version = "0.5", features = ["server", "transport-io"] }
dirs = "5"
rusqlite = { version = "0.32", features = ["bundled"] }
