[package]
name = "rust1090_raw"
version = "0.1.0"
edition = "2021"
publish = false

[dependencies]
rusb = "0.9"
