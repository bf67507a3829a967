[package]
name = "hookcore"
version = "0.1.0"
edition = "2021"
publish = false

[dependencies]
anyhow = "*"
ctor = "*"
lazy_static = "*"
once_cell = "*"
parking_lot = "*"
retour = "*"
tracing = "*"
