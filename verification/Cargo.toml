[package]
name = "ecson"
version = "0.1.0"
edition = "2021"
publish = false

[dependencies]
tokio = { version = "1", features = ["full"] }
bevy_ecs = "0.17"
tokio-tungstenite = "*"
futures-util = "0.3"
tokio-util = "0.7"
tracing = "0.1"
rand = "*"
rustls = "0.23"
rustls-pemfile = "2"
tokio-rustls = "0.26"
rcgen = "*"
wtransport = "*"
