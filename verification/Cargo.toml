[package]
name = "zenix"
version = "0.1.0"
edition = "2021"
publish = false

[dependencies]
serde_json = "1"
garde = { version = "*", default-features = false }
hyper = { version = "1", features = ["server", "http1", "http2"] }
hyper-util = { version = "0.1", features = ["tokio", "server-auto"] }
http = "1"
http-body-util = "0.1"
bytes = "1"
tokio = { version = "1", features = ["rt-multi-thread", "net", "macros"] }
