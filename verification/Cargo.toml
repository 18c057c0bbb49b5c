[package]
name = "pw_cast"
version = "0.1.0"
edition = "2021"
publish = false

[dependencies]
anyhow = "=1.0.104"
async-broadcast = "=0.7.2"
base64 = "=0.22.1"
bytes = "=1.12.1"
cast-sender = "=0.4.0"
clap = { version = "=4.6.7", features = ["derive"] }
derive_builder = "=0.20.2"
env_logger = "=0.11.11"
futures-util = "=0.3.34"
http-body-util = "=0.1.5"
hyper = { version = "=1.12.0", features = ["server", "http1"] }
hyper-util = { version = "=0.1.21", features = ["tokio"] }
libspa = "=0.10.1"
libspa-sys = "=0.10.1"
local-ip-address = "=0.6.13"
log = "=0.4.35"
mdns = "=3.0.0"
mp3lame-encoder = "=0.2.5"
pipewire = "=0.10.1"
serde = { version = "=1.0.229", features = ["derive"] }
serde_json = "=1.0.154"
svg = "=0.18.0"
tokio = { version = "=1.54.1", features = ["full"] }
