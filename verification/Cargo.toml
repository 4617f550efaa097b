[package]
name = "art"
version = "0.1.0"
edition = "2021"
publish = false

[dependencies]
nix = { version = "0.30", features = ["event", "poll", "process"] }
futures = "0.3"
thiserror = "2"
log = "0.4"
libbpf-rs = "*"
