[package]
name = "mozak_vm"
version = "0.1.0"
edition = "2021"
publish = false

[dependencies]
im = "=15.1.0"
