[package]
name = "orc_reader"
version = "0.1.0"
edition = "2021"
publish = false

[dependencies]
arrow = "53"
bytes = "1"
prost = "0.13"
