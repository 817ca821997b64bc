[package]
name = "asset_gateway"
version = "0.1.0"
edition = "2021"
publish = false

[dependencies]
anyhow = "*"
bytes = "*"
futures-util = "*"
minio = "*"
once_cell = "*"
poem = "*"
poem-openapi = "*"
serde = { version = "*", features = ["derive"] }
