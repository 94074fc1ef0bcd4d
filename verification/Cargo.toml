[package]
name = "jirasync"
version = "0.1.0"
edition = "2021"
publish = false

[dependencies]
env_logger = "0.4"
futures = "0.1"
hyper = "0.12"
hyper-tls = "0.3"
netrc = "0.4"
serde = "1"
serde_derive = "1"
serde_json = "1"
tokio-core = "0.1"
