[package]
name = "aargh64"
version = "0.1.0"
edition = "2021"
publish = false

[dependencies]
anyhow = "=1.0.104"
futures = "=0.3.34"
json-patch = "=4.2.0"
k8s-openapi = { version = "=0.27.1", features = ["latest"] }
kube = { version = "=3.1.0", default-features = false, features = ["admission", "client", "derive", "ring", "rustls-tls"] }
lazy_static = "=1.5.1"
oci-distribution = { version = "=0.11.0", default-features = false, features = ["rustls-tls"] }
schemars = "=1.2.3"
serde = { version = "=1.0.229", features = ["derive"] }
serde_json = "=1.0.154"
tokio = { version = "=1.54.1", features = ["macros", "rt-multi-thread", "signal"] }
tracing = "=0.1.44"
tracing-subscriber = "=0.3.23"
warp = { version = "=0.3.7", features = ["tls"] }
