[package]
name = "crc_window"
version = "0.1.0"
edition = "2021"
publish = false

[dependencies]
objc2 = "0.6"
objc2-app-kit = "0.3"
objc2-core-foundation = "0.3"
objc2-foundation = "0.3"
objc2-metal = "0.3"
objc2-quartz-core = "0.3"
