[package]
name = "message_recorder"
version = "0.1.0"
edition = "2021"
publish = false

[dependencies]
byteorder = "=1.5.0"
clap = { version = "=4.6.7", features = ["derive"] }
env_logger = "=0.11.11"
figment = { version = "=0.10.19", features = ["yaml"] }
flate2 = "=1.1.10"
futures = "=0.3.34"
http-body-util = "=0.1.5"
hyper = { version = "=1.12.0", features = ["server", "http1"] }
hyper-util = { version = "=0.1.21", features = ["tokio"] }
log = "=0.4.34"
prometheus-client = "=0.25.1"
prost = "=0.14.4"
serde = { version = "=1.0.229", features = ["derive"] }
tmq = "=0.5.0"
tokio = { version = "=1.54.1", features = ["full"] }

[dev-dependencies]
tempfile = "3"
