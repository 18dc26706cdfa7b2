[package]
name = "btc_lottery_miner"
version = "0.1.0"
edition = "2021"
publish = false

[dependencies]
sha2 = "=0.10.9"
hex = "=0.4.3"
base64 = "=0.22.1"
num_cpus = "=1.17.0"
serde = { version = "=1.0.229", features = ["derive"] }
serde_json = "=1.0.154"
toml = "=0.8.23"
clap = { version = "=4.6.7", features = ["derive"] }
ureq = { version = "=2.12.1", features = ["json"] }
ctrlc = "=3.5.2"
env_logger = "=0.11.11"
log = "=0.4.35"
anyhow = "=1.0.104"
cudarc = { version = "=0.12.1", default-features = false, features = ["std", "driver", "nvrtc", "cuda-12060"] }
