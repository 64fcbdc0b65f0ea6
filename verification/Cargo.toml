[package]
name = "fourth"
version = "0.1.0"
edition = "2021"
publish = false

[dependencies]
log = "0.4"
pretty_env_logger = "0.5"
serde = { version = "1.0", features = ["derive"] }
serde_yaml = "0.9"
time = { version = "=0.3.55", features = ["formatting"] }
tokio = { version = "1", features = ["net", "sync", "rt-multi-thread"] }
url = "=2.5.8"
