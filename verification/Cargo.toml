[package]
name = "udp_tracker"
version = "0.1.0"
edition = "2021"
publish = false

[dependencies]
anyhow = "=1.0.104"
clap = { version = "=4.6.7", features = ["derive", "env"] }
env_logger = "=0.11.11"
futures = "=0.3.34"
log = "=0.4.34"
rand = "=0.10.3"
tokio = { version = "=1.53.2", features = ["macros", "net", "rt-multi-thread", "signal"] }
tokio-stream = "=0.1.19"
tokio-util = { version = "=0.7.19", features = ["codec", "net"] }
