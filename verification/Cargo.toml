[package]
name = "nvml_exporter"
version = "0.1.0"
edition = "2021"
publish = false

[dependencies]
clap = { version = "*", features = ["derive"] }
nvml-wrapper = "*"
prometheus = "0.13"
prometheus_exporter = "*"
