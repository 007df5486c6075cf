[package]
name = "device_api"
version = "0.1.0"
edition = "2021"
publish = false

[dependencies]
axum = "0.7"
local-ip-address = "0.6"
mac_address = "1"
serde = { version = "1", features = ["derive"] }
tokio = { version = "1", features = ["rt-multi-thread", "net", "macros"] }
tower-http = { version = "0.5", features = ["cors"] }
