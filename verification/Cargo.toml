[package]
name = "socket_flow"
version = "0.1.0"
edition = "2021"
publish = false

[dependencies]
base64 = "=0.23.1"
sha1 = "=0.11.0"
flate2 = { version = "=1.1.10", features = ["zlib-rs"] }
rand = "=0.10.3"
url = "=2.5.8"
tokio = { version = "=1.53.2", features = ["rt", "rt-multi-thread", "net", "io-util", "sync", "time", "macros"] }
futures = "=0.3.34"
tokio-stream = "=0.1.19"
