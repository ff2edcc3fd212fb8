[package]
name = "t2fanrd"
version = "0.1.0"
edition = "2021"
publish = false

[dependencies]
arraydeque = "0.5"
rust-ini = "*"
nonempty = "*"
glob = "0.3"
libc = "0.2"
log = "0.4"
env_logger = "*"
signal-hook = "0.3"
thiserror = "*"
