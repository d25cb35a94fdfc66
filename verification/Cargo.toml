[package]
name = "quic_application"
version = "0.1.0"
edition = "2021"
publish = false

[dependencies]
anyhow = "=1.0.104"
bytes = "=1.12.1"
fast-socks5 = "=1.0.0"
futures = "=0.3.34"
log = "=0.4.35"
protobuf = "=3.7.2"
quinn = { version = "=0.11.12", default-features = false, features = ["runtime-tokio"] }
socket2 = { version = "=0.3.19", features = ["reuseport"] }
thiserror = "=1.0.69"
tokio = { version = "=1.54.1", features = ["sync", "time", "net", "rt", "macros"] }
tokio-socks = "=0.5.3"
tokio-util = { version = "=0.7.20", features = ["codec", "net"] }
