[package]
name = "common"
version = "0.1.0"
edition = "2021"
publish = false

[dependencies]
validator = { version = "=0.21.0", features = ["derive"] }
figment = { version = "=0.10.19", features = ["yaml", "env"] }
serde = { version = "=1.0.229", features = ["derive"] }
serde_json = "=1.0.154"
tracing = "=0.1.44"
tracing-subscriber = { version = "=0.3.23", features = ["env-filter", "json"] }
tonic = { version = "=0.14.9", default-features = false }
axum = { version = "=0.8.9", default-features = false, features = ["json"] }
