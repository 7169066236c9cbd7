[package]
name = "turn_scheduler"
version = "0.1.0"
edition = "2021"
publish = false

[dependencies]
bevy = { version = "0.8", default-features = false }
crossterm = "0.25"
