[package]
name = "ipfi"
version = "0.1.0"
edition = "2021"
publish = false

[dependencies]
crossbeam-queue = "0.3"
dashmap = "5"
fxhash = "0.2"
nohash-hasher = "0.2"
rmp = "0.8"
rmp-serde = "1"
serde = { version = "1", features = ["derive"] }
thiserror = "1"
tokio = { version = "1", features = ["rt", "rt-multi-thread", "sync", "io-util", "io-std", "time"] }
