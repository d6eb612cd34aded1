[package]
name = "fnwalk"
version = "0.1.0"
edition = "2021"
publish = false

[dependencies]
actix = "0.13"
actix-broker = "0.4"
actix-files = "0.6"
actix-web = { version = "4", default-features = false, features = ["macros", "ws"] }
actix-web-actors = "4"
async-stream = "0.3"
bytes = "=1.12.1"
env_logger = "0.11"
futures = "0.3"
futures-core = "0.3"
futures-util = "0.3"
log = "0.4"
serde_json = "=1.0.154"
serialport = { version = "4", default-features = false }
tokio = { version = "1", features = ["macros", "rt", "time"] }
tokio-serial = { version = "5.4", default-features = false }
tokio-util = { version = "0.7", features = ["codec"] }
