[package]
name = "airmash_server"
version = "0.1.0"
edition = "2021"
publish = false

[dependencies]
fnv = "=1.0.7"
htmlescape = "=0.3.1"
airmash-protocol = "=0.6.2"
websocket = { version = "=0.27.1", default-features = false, features = ["sync"] }
