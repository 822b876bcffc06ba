[package]
name = "concept_fluid"
version = "0.1.0"
edition = "2021"
publish = false

[dependencies]
uuid = { version = "*", features = ["v4"] }
tokio = { version = "*", features = ["full"] }
axum = { version = "*", features = ["ws"] }
serde = { version = "*", features = ["derive"] }
serde_json = "*"
tokio-stream = "*"
futures = "*"
tower-http = { version = "*", features = ["cors", "trace"] }
tracing = "*"
