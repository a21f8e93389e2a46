[package]
name = "slackwatch"
version = "0.1.0"
edition = "2021"
publish = false

[dependencies]
url = "=2.5.8"
serde = { version = "=1.0.229", features = ["derive"] }
serde_json = "=1.0.154"
serde_yaml_ng = "=0.10.0"
k8s-openapi = { version = "=0.29.0", features = ["latest"] }
git2 = "=0.21.0"
walkdir = "=2.5.0"
tokio = { version = "=1.54.1", features = ["macros", "rt-multi-thread", "time"] }
warp = "=0.3.7"
oci-distribution = "=0.11.0"
ntfy = { version = "=0.9.1", features = ["blocking"] }
log = "=0.4.35"
