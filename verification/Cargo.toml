[package]
name = "winds"
version = "0.1.0"
edition = "2021"
publish = false

[dependencies]
anyhow = "=1.0.104"
async-process = "=2.5.0"
chrono = { version = "=0.4.45", features = ["serde"] }
confy = { version = "=0.6.1", default-features = false, features = ["yaml_conf"] }
env_logger = { version = "=0.11.11", default-features = false }
flate2 = "=1.1.10"
image = { version = "=0.25.10", default-features = false, features = ["png"] }
log = "=0.4.34"
reqwest = { version = "=0.12.28", default-features = false }
rocket = { version = "=0.5.2", features = ["json"] }
rust-s3 = { version = "=0.35.1", default-features = false, features = ["tokio-rustls-tls"] }
serde = { version = "=1.0.229", features = ["derive"] }
serde_json = "=1.0.154"
structopt = { version = "=0.3.26", default-features = false }
tempfile = "=3.27.0"
thiserror = "=1.0.69"
tokio = { version = "=1.54.1", features = ["rt-multi-thread", "macros", "time", "sync"] }
