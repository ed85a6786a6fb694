[package]
name = "sqlite-mcp-core"
version = "0.1.0"
edition = "2021"
publish = false

[dependencies]
base64 = "=0.22.1"
rmcp = "=1.8.0"
rusqlite = { version = "=0.40.2", features = ["bundled", "hooks", "limits", "serialize"] }
schemars = "=1.2.3"
serde = { version = "=1.0.229", features = ["derive"] }
serde_json = "=1.0.154"
sha2 = "=0.10.9"
thiserror = "=2.0.21"
tokio = { version = "=1.54.1", features = ["rt", "sync", "time", "macros"] }
tokio-util = "=0.7.20"
toml = "=0.9.12"
uuid = { version = "=1.29.0", features = ["v4"] }
