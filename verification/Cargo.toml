[package]
name = "order_service"
version = "0.1.0"
edition = "2021"
publish = false

[dependencies]
uuid = { version = "*", features = ["v4", "serde"] }
axum = "*"
tokio = { version = "*", features = ["rt-multi-thread", "macros", "net"] }
serde = { version = "*", features = ["derive"] }
serde_json = "*"
tower-http = { version = "*", features = ["trace"] }
tracing = "*"
tracing-subscriber = { version = "*", features = ["env-filter"] }
dotenv = "*"
