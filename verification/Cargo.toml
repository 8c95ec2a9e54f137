[package]
name = "k8s_scale_app_rs"
version = "0.1.0"
edition = "2021"
publish = false

[dependencies]
anyhow = "1"
chrono = "0.4"
clap = { version = "4", features = ["derive", "env"] }
k8s-openapi = { version = "0.26", features = ["v1_34"] }
kube = "2"
mimalloc = "0.1"
pem = "3"
rustls = { version = "0.23", default-features = false, features = ["ring", "std", "logging", "tls12"] }
serde_json = "1"
tokio = { version = "1", features = ["macros", "rt-multi-thread"] }
tracing = "0.1"
tracing-subscriber = { version = "0.3", features = ["env-filter"] }
