[package]
name = "rfs"
version = "0.1.0"
edition = "2021"
publish = false

[dependencies]
base64 = "0.6"
bincode = "0.8"
blowfish = "0.9"
generic-array = "0.14"
rand = "0.3"
serde = "1"
serde_derive = "1"
log = "0.3"
env_logger = "0.4"
