[package]
name = "dcw"
version = "0.1.0"
edition = "2021"
publish = false

[dependencies]
anyhow = "=1.0.104"
clap = { version = "=4.6.7", features = ["derive"] }
ctrlc = "=3.5.2"
jsonc-parser = { version = "=0.34.0", features = ["serde"] }
libc = "=0.2.191"
serde_json = { version = "=1.0.154", features = ["float_roundtrip"] }
