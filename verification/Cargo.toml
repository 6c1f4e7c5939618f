[package]
name = "solace_monitor"
version = "0.1.0"
edition = "2021"
publish = false

[dependencies]
influx_db_client = "0.3"
time = "0.1"
serde = { version = "1", features = ["derive"] }
serde_json = "1"
serde_yaml = "0.8"
clap = { version = "2", features = ["yaml"] }
log = "0.4"
env_logger = "0.6"
