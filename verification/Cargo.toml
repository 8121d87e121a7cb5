[package]
name = "merino"
version = "0.1.0"
edition = "2021"
publish = false

[dependencies]
actix = "0.13"
clap = { version = "4", features = ["derive"] }
csv = "1"
log = "0.4"
pretty_env_logger = "0.5"
serde = { version = "1", features = ["derive"] }
thiserror = "2"
tokio = { version = "1", features = ["io-util", "macros", "net", "rt-multi-thread", "sync", "time"] }
