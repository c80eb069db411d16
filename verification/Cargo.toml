[package]
name = "sonant"
version = "0.1.0"
edition = "2021"
publish = false

[dependencies]
randomize = "=3.0.1"

[dev-dependencies]
byteorder = "=1.5.0"
