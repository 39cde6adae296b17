[package]
name = "korangar"
version = "0.1.0"
edition = "2021"
publish = false

[dependencies]
cgmath = "0.18"
chrono = "0.4"
derive-new = "0.5"
num = "0.4"
