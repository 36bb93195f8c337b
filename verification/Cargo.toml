[package]
name = "konnect"
version = "0.1.0"
edition = "2021"
publish = false

[dependencies]
anyhow = "1"
serde_json = "1"
tokio = { version = "1", features = ["rt"] }
nng = "1"
prost = "0.13"
prost-types = "0.13"
tracing = "0.1"
