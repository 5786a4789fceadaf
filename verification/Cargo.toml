[package]
name = "mouse_mirror"
version = "0.1.0"
edition = "2021"
publish = false

[dependencies]
tokio = { version = "*", features = ["rt-multi-thread", "net", "time", "macros"] }
device_query = "*"
enigo = "*"
