[package]
name = "cors_proxy"
version = "0.1.0"
edition = "2021"
publish = false

[dependencies]
axum = "*"
bytes = "*"
reqwest = { version = "*", default-features = false, features = ["rustls-tls", "http2"] }
tokio = { version = "*", features = ["rt-multi-thread", "macros", "net"] }
