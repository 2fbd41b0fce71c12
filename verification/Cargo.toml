[package]
name = "waker_slot"
version = "0.1.0"
edition = "2021"
publish = false

[dependencies]
cortex-m = "0.7"
