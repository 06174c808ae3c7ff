[package]
name = "substrate_lessons"
version = "0.1.0"
edition = "2021"
publish = false

[dependencies]
parity-scale-codec = "3.7.5"
sp-io = "*"
sp-runtime = "*"
frame-support = "*"
frame-system = "*"
clap = { version = "2.34.0", default-features = false }
