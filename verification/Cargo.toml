[package]
name = "doorman"
version = "0.1.0"
edition = "2021"
publish = false

[dependencies]
ahash = "0.8"
axum = { version = "0.8", default-features = false, features = ["tokio"] }
forwarded-header-value = "0.1"
governor = "*"
http = "1"
ipnet = "2"
tokio = { version = "1", features = ["rt", "time"] }
tower = "0.5"
