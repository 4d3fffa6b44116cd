[package]
name = "bpf-compatible-sys"
version = "0.1.0"
edition = "2021"
publish = false

[dependencies]
bpf-compatible-rs = "*"
flate2 = "1"
libc = "0.2"
mkstemp-rs = "*"
tar = "0.4"
