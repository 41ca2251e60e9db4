[package]
name = "hotpatch"
version = "0.3.0"
edition = "2021"
publish = false

[dependencies]
libloading = "0.6"
once_cell = "1"
simple-error = "0.2"
