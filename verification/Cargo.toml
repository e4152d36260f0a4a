[package]
name = "testcontainers"
version = "0.1.0"
edition = "2021"
publish = false

[dependencies]
bollard = "0.13"
futures = "0.3"
log = "0.4"
tokio = { version = "1", features = ["time", "rt-multi-thread"] }
