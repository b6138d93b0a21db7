[package]
name = "usync"
version = "0.1.0"
edition = "2021"
publish = false

[dependencies]
crossbeam-queue = { version = "0.3", default-features = false, features = ["alloc"] }
heapless = "0.8"
futures-util = { version = "0.3", default-features = false }
futures-core = { version = "0.3", default-features = false }
conquer-once = { version = "*", default-features = false }
cortex-m = "0.7"
cortex-m-rt = "0.7"
