[package]
name = "hdd"
version = "0.1.0"
edition = "2021"
publish = false

[dependencies]
clap = "=2.34.0"
libc = "=0.2.191"
number_prefix = "=0.2.8"
regex = "1"
separator = "=0.3.1"
serde_json = "=1.0.154"
