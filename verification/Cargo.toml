[package]
name = "vee"
version = "0.1.0"
edition = "2021"
publish = false

[dependencies]
nanomsg = "*"

[dev-dependencies]
serde_json = "*"
