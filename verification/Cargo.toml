[package]
name = "kazahane"
version = "0.1.0"
edition = "2021"
publish = false

[dependencies]
tokio = { version = "*", features = ["full"] }
uuid = { version = "*", features = ["v4"] }
tokio-tungstenite = "*"
futures = "*"
redis = { version = "*", features = ["tokio-comp", "connection-manager"] }
scopeguard = "*"
