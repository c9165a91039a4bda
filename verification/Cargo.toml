[package]
name = "cvr"
version = "0.1.0"
edition = "2021"
publish = false

[dependencies]
minivec = "*"
png = "0.16"
