[package]
name = "histogram"
version = "0.1.0"
edition = "2021"
publish = false

[dependencies]
crossbeam-utils = "0.8"
futures-executor = "0.3"
futures-util = { version = "0.3", default-features = false }
prometheus-client = "*"
