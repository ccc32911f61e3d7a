[package]
name = "kube_guardian"
version = "0.1.0"
edition = "2021"
publish = false

[dependencies]
moka = { version = "=0.12.16", features = ["sync"] }
uuid = { version = "=1.27.0", features = ["v4"] }
chrono = "=0.4.45"
tokio = { version = "*", features = ["full"] }
kube = { version = "=3.1.0", features = ["runtime"] }
k8s-openapi = { version = "=0.27.1", features = ["latest"] }
futures = "*"
reqwest = { version = "*", default-features = false, features = ["rustls-tls"] }
serde = { version = "*", features = ["derive"] }
serde_json = "*"
serde_derive = "*"
tracing = "*"
tracing-subscriber = { version = "*", features = ["env-filter"] }
procfs = "*"
aya = "*"
bytes = "*"
