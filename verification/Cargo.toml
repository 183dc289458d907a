[package]
name = "hoas"
version = "0.1.0"
edition = "2021"
publish = false

[dependencies]
http = "0.2"
actix-web = "4"
serde = { version = "1", features = ["derive"] }
serde_yaml = "0.9"
mongodb = "2"
futures = "0.3"
log = "0.4"
env_logger = "0.11"
structopt = "0.3"
uuid = { version = "1", features = ["v4"] }
backtrace = "0.3"
