[package]
name = "trader_core"
version = "0.1.0"
edition = "2021"
publish = false

[dependencies]
serde = { version = "*", features = ["derive"] }
serde_json = "*"
chrono = "*"
tokio = { version = "*", features = ["rt-multi-thread", "macros", "sync"] }
tokio-tungstenite = "*"
futures-util = "*"
reqwest = { version = "*", default-features = false }
argon2 = "*"
base64 = "*"
ring = "*"
hex = "*"
percent-encoding = "*"
serde_urlencoded = "*"
