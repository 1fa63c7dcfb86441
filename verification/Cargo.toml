[package]
name = "dhcp_core"
version = "0.1.0"
edition = "2021"
publish = false

[dependencies]
anyhow = "1"
axum = "0.7"
axum-server = { version = "0.7", features = ["tls-rustls"] }
dhcproto = "0.12"
env_logger = "0.11"
hickory-proto = "0.24"
hickory-server = "0.24"
rustls = "0.23"
rustls-pemfile = "2"
tokio = { version = "1", features = ["full"] }
