[package]
name = "wordle"
version = "0.1.0"
edition = "2021"
publish = false

[dependencies]
clearscreen = "*"
colored = "*"
rand = "0.8"
