[package]
name = "harp"
version = "0.1.0"
edition = "2021"
publish = false

[dependencies]
tokio = { version = "*", features = ["rt-multi-thread", "net", "macros", "time"] }
tokio-tungstenite = "*"
futures-util = "*"
serde_json = "*"
