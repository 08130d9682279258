[package]
name = "seify"
version = "0.1.0"
edition = "2021"
publish = false

[dependencies]
libbladerf-rs = "=0.1.0"
num-complex = "=0.4.6"
log = "=0.4.34"
