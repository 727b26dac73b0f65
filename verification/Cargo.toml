[package]
name = "lynx_mcp"
version = "0.1.0"
edition = "2021"
publish = false

[dependencies]
base64 = "*"
chromiumoxide = "*"
chrono = "*"
dirs = "*"
futures-util = "*"
rmcp = { version = "*", features = ["server", "transport-io", "macros"] }
schemars = "*"
serde = { version = "*", features = ["derive"] }
serde_json = "*"
tokio = { version = "*", features = ["full"] }
tracing = "*"
tracing-subscriber = { version = "*", features = ["env-filter"] }
uuid = { version = "*", features = ["v4"] }
