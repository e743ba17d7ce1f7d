[package]
name = "rusoto_request"
version = "0.1.0"
edition = "2021"
publish = false

[dependencies]
bytes = "0.4"
futures = "0.1"
http = "0.1"
hyper = "0.12"
hyper-tls = "0.3"
log = "0.4"
tokio-timer = "0.2"
