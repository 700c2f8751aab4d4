[package]
name = "freeswitch_esl"
version = "0.1.0"
edition = "2021"
publish = false

[dependencies]
futures = "0.3"
serde_json = "1"
tokio = { version = "1", features = ["io-util", "net", "rt", "rt-multi-thread", "sync"] }
tokio-stream = "0.1"
tokio-util = { version = "0.7", features = ["codec"] }
uuid = { version = "1", features = ["v4"] }
