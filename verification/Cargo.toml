[package]
name = "mdrcodec"
version = "0.1.0"
edition = "2021"
publish = false

[dependencies]
flate2 = "1"
lz4 = "1"
futures-io = "0.3"
futures-util = { version = "0.3", features = ["io"] }

[dev-dependencies]
futures = "0.3"
