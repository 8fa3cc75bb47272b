[package]
name = "si_value"
version = "0.1.0"
edition = "2021"
publish = false

[dependencies]
prse = "1"
