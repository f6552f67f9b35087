[package]
name = "nvme"
version = "0.1.0"
edition = "2021"
publish = false

[dependencies]
modular-bitfield = "0.11"
num-derive = "0.3"
num-traits = "0.2"
serde = { version = "1", features = ["derive"] }
