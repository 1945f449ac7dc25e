[package]
name = "pylon_lfp_protocol"
version = "0.1.0"
edition = "2021"
publish = false

[dependencies]
clap = { version = "=4.6.7", features = ["derive"] }
embedded-io = "=0.7.1"
embedded-io-adapters = { version = "=0.7.0", features = ["std"] }
serialport = { version = "=4.10.1", default-features = false }
