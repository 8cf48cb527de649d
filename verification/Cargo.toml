[package]
name = "encstore"
version = "0.1.0"
edition = "2021"
publish = false

[dependencies]
openssl = "0.10"
axum = { version = "0.6", features = ["multipart"] }
axum_typed_multipart = "0.10"
serde = { version = "1", features = ["derive"] }
tokio = { version = "1", features = ["fs", "io-util", "macros", "net", "rt-multi-thread", "sync"] }
tokio-util = { version = "0.7", features = ["io"] }
