[package]
name = "lamella"
version = "0.1.0"
edition = "2021"
publish = false

[dependencies]
clap = { version = "=4.6.7", features = ["derive"] }
cobs = "=0.5.1"
embassy-futures = "=0.1.2"
embassy-net-driver = "=0.2.0"
embassy-sync = "=0.8.0"
embassy-time = "=0.5.1"
embassy-usb = { version = "=0.6.0", default-features = false }
embedded-io-async = "=0.7.0"
env_logger = "=0.11.11"
ergot = { version = "=0.12.0", features = ["nusb-v0_1", "tokio-serial-v5"] }
heapless = { version = "=0.8.0", features = ["serde"] }
log = "=0.4.35"
nusb = "=0.1.14"
postcard-schema = { version = "=0.2.5", features = ["derive", "heapless-v0_8"] }
serde = { version = "=1.0.229", features = ["derive"] }
smoltcp = "=0.14.0"
tokio = { version = "=1.54.1", features = ["full"] }
tokio-serial = "=5.5.0"
tokio-util = "=0.7.20"
tun-rs = { version = "=2.8.16", features = ["async"] }
