[package]
name = "btutils"
version = "0.1.0"
edition = "2021"
publish = false

[dependencies]
async-rustbus = "=0.1.1"
async-std = { version = "=1.13.2", features = ["unstable"] }
futures = "=0.3.34"
rustable = "=0.3.0"
