[package]
name = "spindle"
version = "0.1.0"
edition = "2021"
publish = false

[dependencies]
bytes = "1"
crossbeam-channel = "0.5"
crossbeam-deque = "0.8"
mio = { version = "1", features = ["os-poll", "net"] }
parking_lot = "0.12"
