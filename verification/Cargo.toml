[package]
name = "sse_relay"
version = "0.1.0"
edition = "2021"
publish = false

[dependencies]
serde = { version = "*", features = ["derive"] }
serde_json = "*"
tokio = { version = "*", features = ["full"] }
futures = "*"
bytes = "*"
reqwest = { version = "*", default-features = false, features = ["json", "stream"] }
