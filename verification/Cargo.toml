[package]
name = "whisper_bridge"
version = "0.1.0"
edition = "2021"
publish = false

[dependencies]
hound = "3"
napi = "2"
napi-derive = "2"
