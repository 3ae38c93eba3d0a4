[package]
name = "kernel_core"
version = "0.1.0"
edition = "2021"
publish = false

[dependencies]
crossbeam-queue = "0.3"
x86_64 = { version = "0.14", default-features = false, features = ["instructions"] }
bootloader = "0.9"
