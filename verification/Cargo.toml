[package]
name = "recorder"
version = "0.1.0"
edition = "2021"
publish = false

[dependencies]
chrono = "=0.4.45"
ulid = "=1.2.1"
machine = "=0.3.0"
jsonpath-rust = "=0.3.5"
serde_json = "=1.0.154"
serde = { version = "=1.0.229", features = ["derive"] }
serde_derive = "=1.0.229"
tokio = { version = "=1.54.1", features = ["full"] }
log = "=0.4.35"
env_logger = "=0.10.2"
structopt = "=0.3.26"
libc = "=0.2.191"
lockfree = "0.5"
once_cell = "1"
