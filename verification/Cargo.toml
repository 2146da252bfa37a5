[package]
name = "pico_scopehal"
version = "0.1.0"
edition = "2021"
publish = false

[dependencies]
anyhow = "1"
byteorder = "1"
clap = { version = "4", features = ["derive"] }
crossbeam-channel = "0.5"
csv = "1"
parking_lot = "0.12"
pico-common = "*"
pico-device = "*"
pico-sdk = "*"
pico-streaming = "*"
tracing = "0.1"
tracing-subscriber = { version = "0.3", features = ["env-filter"] }
