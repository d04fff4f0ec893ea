[package]
name = "decnum"
version = "0.1.0"
edition = "2021"
publish = false

[dependencies]
approx = "=0.5.1"
num-traits = "=0.2.19"
decimal = "*"
