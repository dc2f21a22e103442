[package]
name = "peerlink"
version = "0.1.0"
edition = "2021"
publish = false

[dependencies]
bytes = "1"
crossbeam-channel = "0.5"
log = "0.4"
mio = { version = "1", features = ["os-poll", "net"] }
rustc-hash = "2"
slab = "0.4"
socks = "0.3"
