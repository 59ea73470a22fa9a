[package]
name = "relay8x"
version = "0.1.0"
edition = "2021"
publish = false

[dependencies]
bytes = "*"
serial = "*"
docopt = "*"
env_logger = "*"
log = "*"
serde = "*"
serde_derive = "*"
failure = "*"
common_failures = "*"
