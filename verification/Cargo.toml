[package]
name = "nullptrbot"
version = "0.1.0"
edition = "2021"
publish = false

[dependencies]
chess = "3.2"
rand = "0.8"
log = "0.4"
env_logger = "0.10"
