[package]
name = "kubewatcher"
version = "0.1.0"
edition = "2021"
publish = false

[dependencies]
chrono = "=0.4.45"
url = "=2.5.8"
serde = { version = "*", features = ["derive"] }
serde_json = "*"
tokio = { version = "*", features = ["full"] }
futures = "*"
log = "*"
env_logger = "*"
clap = { version = "*", features = ["derive"] }
config = "*"
tokio-graceful-shutdown = "*"
reqwest = { version = "*", default-features = false, features = ["rustls-tls", "json"] }
reqwest-middleware = "*"
reqwest-retry = "*"
kube = { version = "*", features = ["runtime"] }
k8s-openapi = { version = "=0.27.1", features = ["latest"] }
aws-config = "*"
aws-sdk-sns = "*"
aws-sdk-sqs = "*"
