[package]
name = "autonet"
version = "0.1.0"
edition = "2021"
publish = false

[dependencies]
owo-colors = "=4.4.0"
qrcode = { version = "=0.14.1", default-features = false }
clap = { version = "=4.6.7", features = ["derive"] }
serde = { version = "=1.0.229", features = ["derive"] }
serde_json = "=1.0.154"
toml = "=0.8.23"
thiserror = "=1.0.69"
ctrlc = "=3.5.2"
hostname = "=0.4.2"
if-addrs = "=0.13.4"
mdns-sd = "=0.11.5"
tokio = { version = "1", features = ["rt", "net"] }
rtnetlink = "*"
futures-util = "0.3"
