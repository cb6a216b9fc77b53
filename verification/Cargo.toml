[package]
name = "phc_value"
version = "0.1.0"
edition = "2021"
publish = false

[dependencies]
base64ct = "1"
