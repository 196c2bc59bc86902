[package]
name = "decrypt_gateway"
version = "0.1.0"
edition = "2021"
publish = false

[dependencies]
actix-web = { version = "4", default-features = false }
anyhow = "1"
log = "0.4"
simple_logger = "*"
tokio = { version = "1", features = ["rt", "sync"] }
