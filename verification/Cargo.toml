[package]
name = "blacktea"
version = "0.1.0"
edition = "2021"
publish = false

[dependencies]
hyper = { version = "0.14", features = ["server", "http1", "tcp"] }
mime = "0.3"
serde_json = "1"
tokio = { version = "1", features = ["rt"] }
url = "2"
