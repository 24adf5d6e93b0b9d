[package]
name = "miru_agent"
version = "0.1.0"
edition = "2021"
publish = false

[dependencies]
base64 = "0.22"
chrono = { version = "0.4", features = ["serde"] }
uuid = { version = "1", features = ["v4", "serde"] }
pem-rfc7468 = { version = "0.7", features = ["alloc"] }
aws-lc-rs = "1"
serde = { version = "1", features = ["derive"] }
serde_json = "1"
thiserror = "2"
tokio = { version = "1", features = ["full"] }
tracing = "0.1"
secrecy = "0.10"
async-trait = "0.1"
futures = "0.3"
