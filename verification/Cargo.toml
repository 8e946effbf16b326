[package]
name = "channel_engine"
version = "0.1.0"
edition = "2021"
publish = false

[dependencies]
jack = "0.13"
