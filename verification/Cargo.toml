[package]
name = "addr_watch"
version = "0.1.0"
edition = "2021"
publish = false

[dependencies]
futures = "0.3"
ip-roam = "*"
log = "0.4"
pretty_env_logger = "0.5"
tokio = { version = "1", features = ["macros", "rt"] }
