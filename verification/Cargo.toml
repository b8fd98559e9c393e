[package]
name = "my_todo"
version = "0.1.0"
edition = "2021"
publish = false

[dependencies]
axum = "=0.6.20"
hyper = { version = "=0.14.27", features = ["full"] }
serde = { version = "1", features = ["derive"] }
thiserror = "1"
tokio = { version = "1", features = ["full"] }
tower-http = { version = "=0.4.4", features = ["cors"] }
tracing = "0.1"
tracing-subscriber = "0.3"
validator = { version = "=0.16.1", features = ["derive"] }
