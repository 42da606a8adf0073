[package]
name = "dencode"
version = "0.1.0"
edition = "2021"
publish = false

[dependencies]
futures-core = "0.3"
futures-io = "0.3"
futures-sink = "0.3"
bitvec = "1"

[dev-dependencies]
futures = "0.3"
