[package]
name = "databending"
version = "0.1.0"
edition = "2021"
publish = false

[dependencies]
rustc_apfloat = "*"
rand = "0.8"
image = { version = "0.24", default-features = false, features = ["tiff"] }
