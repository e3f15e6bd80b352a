[package]
name = "cwl_worker"
version = "0.1.0"
edition = "2021"
publish = false

[dependencies]
indicium = "=0.6.10"
kstring = "=2.0.2"
aws-config = { version = "=1.12.0", default-features = false }
aws-sdk-cloudwatchlogs = { version = "=1.156.0", default-features = false }
tokio = { version = "=1.53.2", features = ["rt", "time"] }
crossterm = "=0.25.0"
tui = "=0.19.0"
log = "=0.4.34"
