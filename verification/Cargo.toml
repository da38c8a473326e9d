[package]
name = "omni-log-forwarder"
version = "1.0.0"
edition = "2021"
publish = false

[dependencies]
anyhow = "1"
futures = "0.3"
pdk = "*"
serde = { version = "1", features = ["derive"] }
serde_json = "1"

[dev-dependencies]
pdk-unit = "*"
