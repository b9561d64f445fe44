[package]
name = "agentverse"
version = "0.1.0"
edition = "2021"
publish = false

[dependencies]
serde = { version = "1", features = ["derive"] }
serde_json = "1"
uuid = { version = "1", features = ["v4", "serde"] }
reqwest = { version = "0.12", default-features = false, features = ["json"] }
tokio = { version = "1", features = ["rt-multi-thread", "macros", "sync", "time", "net"] }
axum = "0.7"
tower-http = { version = "0.5", features = ["cors"] }
chrono = "0.4"
async-trait = "0.1"
thiserror = "1"
opentelemetry = { version = "0.27", features = ["metrics"] }
minijinja = "2"
serde_yaml = "0.9"
toml = "0.8"
schemars = "0.8"

[dev-dependencies]
tempfile = "3"
