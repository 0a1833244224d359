[package]
name = "skeg-client"
version = "0.2.0"
edition = "2021"
publish = false

[dependencies]
bytes = "=1.12.1"
skeg-proto = "=0.2.0"
socket2 = { version = "=0.6.5", features = ["all"] }
thiserror = "=2.0.21"
tokio = { version = "=1.54.1", features = ["net", "io-util", "rt", "macros"] }
