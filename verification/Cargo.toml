[package]
name = "wireguard-web-autopeer"
version = "0.1.0"
edition = "2021"
publish = false

[dependencies]
base64 = "0.21"
env_logger = "0.10"
futures = "0.3"
if-watch = { version = "3", features = ["tokio"] }
ksni = "*"
log = "0.4"
net-route = "*"
network-interface = "*"
reqwest = { version = "0.11", default-features = false, features = ["json"] }
serde = { version = "1", features = ["derive"] }
serde_json = "1"
tokio = { version = "1", features = ["full"] }
tokio-util = "0.7"
wireguard-uapi = "*"
xdg = "2"

[dev-dependencies]
ipnet = "2"
