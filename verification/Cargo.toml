[package]
name = "pgmoneta_lifecycle"
version = "0.1.0"
edition = "2021"
publish = false

[dependencies]
k8s-openapi = { version = "*", features = ["latest"] }
kube = "*"
log = "0.4"
serde_yaml = "0.9"
