[package]
name = "vdbe"
version = "0.1.0"
edition = "2021"
publish = false

[dependencies]
anyhow = "1"
getrandom = "0.2"
log = "0.4"
regex = "1"
