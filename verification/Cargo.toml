[package]
name = "nanochat_ws"
version = "0.1.0"
edition = "2021"
publish = false

[dependencies]
chrono = { version = "0.4", features = ["serde"] }
dotenvy_macro = "0.15"
futures-channel = "0.3"
futures-util = "0.3"
jsonwebtoken = "9"
serde = { version = "1", features = ["derive"] }
serde_json = "1"
tokio = { version = "1", features = ["macros", "net", "rt-multi-thread"] }
tokio-tungstenite = "0.21"
uuid = { version = "1", features = ["serde"] }

[dev-dependencies]
prost = "0.12"
