[package]
name = "deskmate"
version = "0.1.0"
edition = "2021"
publish = false

[dependencies]
blake3 = "1"
ignore = "0.4"
uuid = { version = "1", features = ["v4"] }
serde = { version = "1", features = ["derive"] }
serde_json = "1"
tokio = { version = "1", features = ["full"] }
rustls = { version = "0.23", default-features = false, features = ["ring", "std", "tls12", "logging"] }
rustls-pki-types = "1"
tokio-rustls = { version = "0.26", default-features = false, features = ["ring", "tls12", "logging"] }
rcgen = { version = "*", default-features = false, features = ["ring", "pem"] }
mdns-sd = "*"
socket2 = { version = "*", features = ["all"] }
clap = { version = "4", features = ["derive"] }
anyhow = "1"
thiserror = "2"
tracing = "0.1"
tracing-subscriber = { version = "0.3", features = ["env-filter"] }
os_info = "3"
hostname = "*"
libc = "0.2"
