[package]
name = "rustus"
version = "0.1.0"
edition = "2021"
publish = false

[dependencies]
actix-web = { version = "*", default-features = false }
axum = "*"
bytes = "*"
tokio = { version = "*", features = ["fs", "io-util"] }
tracing = "*"
