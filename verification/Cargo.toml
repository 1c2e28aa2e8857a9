[package]
name = "eccfs_epm"
version = "0.1.0"
edition = "2021"
publish = false

[dependencies]
env_logger = "0.11"
lazy_static = "1"
libc = "0.2"
log = "0.4"
nix = { version = "0.29", features = ["socket", "uio"] }
