[package]
name = "term3d"
version = "0.1.0"
edition = "2021"
publish = false

[dependencies]
easycurses = "=0.13.0"
