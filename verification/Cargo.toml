[package]
name = "coreos_assembler"
version = "0.1.0"
edition = "2021"
publish = false

[dependencies]
serde_json = { version = "1", features = ["preserve_order"] }
serde_yaml = "0.8"
tempfile = "3"
clap = "2"
failure = "0.1"
