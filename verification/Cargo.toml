[package]
name = "chess_client"
version = "0.1.0"
edition = "2021"
publish = false

[dependencies]
uuid = { version = "1", features = ["serde", "v4"] }
serde = { version = "1", features = ["derive"] }
serde_json = "1"
tokio = { version = "1", features = ["full"] }
tokio-tungstenite = "*"
futures-util = { version = "0.3", features = ["sink"] }
futures-channel = "0.3"
reqwest = { version = "0.12", default-features = false, features = ["json"] }
http = "1"
