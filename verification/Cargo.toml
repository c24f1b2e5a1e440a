[package]
name = "sgl_chat_stream"
version = "0.1.0"
edition = "2021"
publish = false

[dependencies]
anyhow = "1"
napi = { version = "2", default-features = false, features = ["napi4", "async"] }
napi-derive = "2"
serde = { version = "1", features = ["derive"] }
serde_json = "1"
tokio = { version = "1", features = ["rt", "macros"] }
tokio-stream = "0.1"
uuid = { version = "1", features = ["v4"] }
