[package]
name = "screensnipe"
version = "0.1.0"
edition = "2021"
publish = false

[dependencies]
anyhow = "*"
arboard = "*"
dirs = "*"
rdev = "*"
