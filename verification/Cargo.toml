[package]
name = "grizzly-agent"
version = "0.1.0"
edition = "2021"
publish = false

[dependencies]
serde_json = "1"
serde = { version = "1", features = ["derive"] }
thiserror = "2"
tokio = { version = "1", features = ["rt", "rt-multi-thread", "time", "macros", "sync"] }
tokio-util = "0.7"
futures-util = "0.3"
futures-core = "0.3"
async-trait = "0.1"
rand = "0.9"
jiff = { version = "0.2", features = ["serde"] }
uuid = { version = "1", features = ["v7", "serde"] }
tracing = "0.1"
