[package]
name = "rx_streams"
version = "0.1.0"
edition = "2021"
publish = false

[dependencies]
futures = { version = "0.3", features = ["thread-pool"] }
async-std = { version = "1", features = ["unstable"] }
num-traits = "0.2"
