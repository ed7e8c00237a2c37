[package]
name = "hil_harness"
version = "0.1.0"
edition = "2021"
publish = false

[dependencies]
serialport = { version = "=3.3.0", default-features = false }
