[package]
name = "roundest_robin_router"
version = "0.1.0"
edition = "2021"
publish = false

[dependencies]
uuid = { version = "*", features = ["v4"] }
rand = "*"
axum = "*"
tokio = { version = "*", features = ["full"] }
serde = { version = "*", features = ["derive"] }
tower-http = { version = "*", features = ["cors"] }
reqwest = { version = "*", default-features = false }
bollard = "*"
bytesize = "*"
futures-util = "*"
