[package]
name = "passpartout_printer"
version = "0.2.0"
edition = "2021"
publish = false

[dependencies]
clap = "2"
device_query = "1"
enigo = "0.1"
image = "0.24"
serde = { version = "1", features = ["derive"] }
serde_json = "1"
