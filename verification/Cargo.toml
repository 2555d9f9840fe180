[package]
name = "glues"
version = "0.1.0"
edition = "2021"
publish = false

[dependencies]
serde = { version = "=1.0.229", features = ["derive"] }
serde_json = "=1.0.154"
axum = "=0.8.9"
tokio = { version = "=1.54.1", features = ["rt-multi-thread", "macros", "net", "signal"] }
clap = { version = "=4.6.7", features = ["derive", "env"] }
tower-http = { version = "0.6", features = ["cors"] }
