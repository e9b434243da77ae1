[package]
name = "boardswarm"
version = "0.1.0"
edition = "2021"
publish = false

[dependencies]
anyhow = "1"
async-trait = "0.1"
bytes = "1"
erased-serde = "0.3"
futures = "0.3"
http = "0.2"
pdudaemon-client = "*"
serde = { version = "1", features = ["derive"] }
serde_yaml = "0.9"
tonic = { version = "0.8", default-features = false }
tower = { version = "0.4", default-features = false }
tracing = "0.1"
