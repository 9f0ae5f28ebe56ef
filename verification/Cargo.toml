[package]
name = "mooncal"
version = "0.1.0"
edition = "2021"
publish = false

[dependencies]
axum = "*"
chrono = "*"
chrono-tz = "*"
clap = { version = "*", features = ["derive"] }
elasticsearch = "=8.19.0-alpha.1"
geodate = "*"
log = "*"
serde = { version = "*", features = ["derive"] }
serde_json = "*"
tokio = { version = "*", features = ["macros", "rt-multi-thread", "net"] }
tower = "*"
tower-http = { version = "*", features = ["cors", "trace"] }
tracing-subscriber = "*"
