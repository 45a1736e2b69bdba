[package]
name = "buildengine"
version = "0.1.0"
edition = "2021"
publish = false

[dependencies]
mio = { version = "*", features = ["net", "os-poll"] }
log = "*"
env_logger = "*"
hlua = "*"
