[package]
name = "up-transport-iceoryx2-rust"
version = "0.1.0"
edition = "2021"
publish = false

[dependencies]
async-trait = "*"
bytes = "*"
hostname = "*"
iceoryx2 = "*"
iceoryx2-bb-container = "*"
iceoryx2-bb-system-types = "*"
tokio = { version = "*", features = ["rt-multi-thread", "sync", "time", "macros"] }
up-rust = "*"
