[package]
name = "worldview"
version = "0.1.0"
edition = "2021"
publish = false

[dependencies]
image = "0.24"
cgmath = "0.18"
toml = "0.8"
log = "0.4"
rand = "0.8"
