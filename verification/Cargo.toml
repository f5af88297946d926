[package]
name = "ai_group_chat"
version = "0.1.0"
edition = "2021"
publish = false

[dependencies]
base64 = "=0.22.1"
chrono = "=0.4.45"
futures = "=0.3.34"
html2text = "=0.17.4"
regex = "=1.13.1"
reqwest = { version = "=0.12.28", default-features = false, features = ["json", "stream"] }
rusqlite = { version = "=0.38.0", features = ["bundled"] }
serde = { version = "=1.0.229", features = ["derive"] }
serde_json = "=1.0.154"
tokio = { version = "=1.54.1", features = ["rt", "macros", "time"] }
uuid = { version = "=1.29.0", features = ["v4"] }
