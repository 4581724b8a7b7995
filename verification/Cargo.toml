[package]
name = "linedb"
version = "0.1.0"
edition = "2021"
publish = false

[dependencies]
anyhow = "*"
chrono = "*"
fern = "*"
log = "*"
rmp-serde = "*"
tokio = { version = "*", features = ["full"] }
uuid = { version = "*", features = ["v4"] }
