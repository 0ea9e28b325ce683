[package]
name = "uefi_layer"
version = "0.1.0"
edition = "2021"
publish = false

[dependencies]
log = "0.4"
x86_64 = { version = "0.15", default-features = false, features = ["instructions"] }
