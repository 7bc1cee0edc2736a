[package]
name = "gpu_telemetry"
version = "0.1.0"
edition = "2021"
publish = false

[dependencies]
ratatui = "0.29"
crossterm = "0.28"
nvml-wrapper = "*"
log = "0.4"
env_logger = "*"
