[package]
name = "peggy_core"
version = "0.1.0"
edition = "2021"
publish = false

[dependencies]
clarity = "=1.7.0"
deep_space = "=2.33.1"
num256 = "=0.6.0"
web30 = "=1.15.0"
lazy_static = "=1.5.1"

[dev-dependencies]
rand = "=0.10.3"
sha3 = "=0.10.9"
