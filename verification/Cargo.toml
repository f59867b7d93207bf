[package]
name = "polytope4d"
version = "0.1.0"
edition = "2021"
publish = false

[dependencies]
hex = "0.4"
lazy_static = "1"
macroquad = "0.3"
rdev = "0.5"
rfd = "0.10"
