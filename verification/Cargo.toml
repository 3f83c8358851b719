[package]
name = "otdrs"
version = "1.1.0"
edition = "2021"
publish = false

[dependencies]
crc = "3"
serde = { version = "1", features = ["derive"] }
serde_json = "1"
serde_cbor = "0.11"
clap = { version = "4", features = ["derive"] }
