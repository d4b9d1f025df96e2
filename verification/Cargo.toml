[package]
name = "oxide-gui-core"
version = "0.1.0"
edition = "2021"
publish = false

[dependencies]
minifb = "=0.29.0"
