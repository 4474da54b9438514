[package]
name = "actix_zmq"
version = "0.1.0"
edition = "2021"
publish = false

[dependencies]
actix = "*"
actix-rt = "*"
bytes = "*"
futures = "*"
tokio = { version = "*", features = ["net", "rt"] }
zmq = { version = "*", features = ["vendored"] }
