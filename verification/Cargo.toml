[package]
name = "caligula"
version = "0.1.0"
edition = "2021"
publish = false

[dependencies]
bytesize = "=2.7.0"
bytes = "=1.12.1"
libc = "=0.2.191"
ringbuf = "=0.4.8"
tokio = { version = "=1.54.1", features = ["full"] }
futures = "=0.3.34"
serde = { version = "=1.0.229", features = ["derive"] }
thiserror = "=2.0.21"
bincode = "=1.3.3"
tracing = "=0.1.44"
anyhow = "=1.0.104"
arc-swap = "=1.9.3"
tokio-util = "=0.7.20"
pin-project = "=1.1.13"
futures-io = "=0.3.34"
dashmap = "6"
