[package]
name = "side-huddle"
version = "0.1.0"
edition = "2021"
publish = false

[dependencies]
crossbeam-channel = "0.5"
thiserror = "1"
libc = "0.2"
uuid = { version = "1", features = ["v4"] }
napi = { version = "2", default-features = false, features = ["napi4"] }
napi-derive = "2"
pyo3 = { version = "0.23", features = ["extension-module", "abi3-py39"] }
core-foundation = "0.9"
core-foundation-sys = "0.8"
core-graphics = "0.23"
coreaudio-sys = "0.2"
objc2 = "0.6"
objc2-foundation = "0.3"
objc2-core-audio = "0.3"
objc2-core-audio-types = "0.3"
