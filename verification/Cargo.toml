[package]
name = "frozen_hashbrown"
version = "0.1.0"
edition = "2021"
publish = false

[dependencies]
cfg-if = "1.0"

[dev-dependencies]
anyhow = "1.0"
