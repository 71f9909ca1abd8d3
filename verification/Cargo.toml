[package]
name = "mcp_server"
version = "0.1.0"
edition = "2021"
publish = false

[dependencies]
chrono = "0.4"
anyhow = "1"
serde = { version = "1", features = ["derive"] }
serde_json = "1"
toml = "0.8"
axum = "0.8"
tower = "0.5"
tokio = { version = "1", features = ["rt-multi-thread", "net", "macros"] }
