[package]
name = "hyperion_vm"
version = "0.1.0"
edition = "2021"
publish = false

[dependencies]
dashmap = "*"
httparse = "*"
mio = { version = "*", features = ["net", "os-poll"] }
libc = "*"
crossbeam-channel = "*"
crossbeam-deque = "*"
chrono = "*"
