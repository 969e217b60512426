[package]
name = "quic_ingress"
version = "0.1.0"
edition = "2021"
publish = false

[dependencies]
quinn = { version = "=0.8.5", default-features = false, features = ["tls-rustls", "ring"] }
rustls = { version = "=0.20.9", default-features = false }
tokio = { version = "=1.54.1", features = ["rt"] }
futures-util = { version = "=0.3.34", default-features = false, features = ["std"] }
color-eyre = { version = "=0.6.5", default-features = false }
log = "=0.4.34"
