[package]
name = "probe_rank"
version = "0.1.0"
edition = "2021"
publish = false

[dependencies]
anyhow = "*"
clap = { version = "*", features = ["derive"] }
clap_complete = "*"
env_logger = "*"
futures = "*"
hex = "*"
indicatif = "*"
ipnetwork = "*"
log = "*"
rand = "*"
tokio = { version = "*", features = ["macros", "net", "rt-multi-thread", "time"] }
tokio-stream = "*"
