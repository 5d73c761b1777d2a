[package]
name = "deluge"
version = "0.1.0"
edition = "2021"
publish = false

[dependencies]
embassy-usb-driver = "*"
embassy-usb = "*"
embassy-futures = "*"
embassy-time = "*"
embassy-sync = "*"
embedded-graphics-core = "*"
critical-section = "*"
