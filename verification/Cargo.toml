[package]
name = "noa_app"
version = "0.1.0"
edition = "2021"
publish = false

[dependencies]
winit = { version = "0.30", default-features = false, features = ["x11"] }
log = "0.4"
anyhow = "1"
parking_lot = "0.12"
crossbeam-channel = "0.5"
