[package]
name = "zappy_server"
version = "0.1.0"
edition = "2021"
publish = false

[dependencies]
rand = "0.9"
tokio = { version = "1", features = ["net", "io-util", "sync", "time", "rt-multi-thread", "macros"] }
log = "0.4"
env_logger = "0.11"
thiserror = "2"
