[package]
name = "rapier_world"
version = "0.1.0"
edition = "2021"
publish = false

[dependencies]
rapier2d = "0.8"
gdnative = "0.9"
