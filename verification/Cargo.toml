[package]
name = "akri"
version = "0.1.0"
edition = "2021"
publish = false

[dependencies]
anyhow = "1"
futures = "0.3"
k8s-openapi = { version = "=0.22.0", features = ["v1_30"] }
kstring = "=2.0.2"
kube = { version = "=0.92.1", features = ["runtime", "derive", "client"] }
kube-runtime = { version = "=0.92.1", features = ["unstable-runtime-reconcile-on"] }
liquid-json = "=0.6.1"
log = "0.4"
serde = { version = "1", features = ["derive"] }
serde_json = "1"
thiserror = "1"
tokio = { version = "1", features = ["macros", "rt-multi-thread", "sync", "time", "signal"] }
