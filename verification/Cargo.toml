[package]
name = "driver"
version = "0.1.0"
edition = "2021"
publish = false

[dependencies]
axum = "0.6"
bigdecimal = { version = "0.3", features = ["serde"] }
chrono = { version = "0.4", default-features = false, features = ["clock", "serde"] }
hyper = "0.14"
indexmap = { version = "2", features = ["serde"] }
num = "0.4"
serde = { version = "1", features = ["derive"] }
serde_with = "3"
thiserror = "1"
tracing = "0.1"
