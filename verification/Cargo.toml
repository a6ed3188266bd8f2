[package]
name = "tuisana"
version = "0.1.0"
edition = "2021"
publish = false

[dependencies]
regex = "1"
crossterm = "0.28"
