[package]
name = "iotop_relay"
version = "0.1.0"
edition = "2021"
publish = false

[dependencies]
getopts = "0.2"
regex = "1"
rustc-serialize = "0.3"
time = "0.1"
websocket = { version = "*", default-features = false, features = ["sync"] }
