[package]
name = "wasm_workflows_plugin"
version = "0.1.0"
edition = "2021"
publish = false

[dependencies]
anyhow = "=1.0.104"
aws-creds = "=0.40.0"
axum = "=0.8.9"
base64 = "=0.13.1"
clap = { version = "=4.6.7", features = ["derive", "env"] }
futures = "=0.3.34"
k8s-openapi = { version = "=0.27.1", features = ["latest"] }
kube = { version = "=3.1.0", features = ["client", "runtime"] }
oci-distribution = "=0.11.0"
rand = "=0.8.8"
rust-s3 = "=0.38.0"
serde = { version = "=1.0.229", features = ["derive"] }
serde_json = "=1.0.151"
serde_yaml = "=0.9.34"
tempfile = "=3.27.0"
tokio = { version = "=1.53.2", features = ["macros", "rt-multi-thread", "fs", "time", "signal", "sync", "io-util"] }
zstd = "=0.14.0"
