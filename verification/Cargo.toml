[package]
name = "rustybuzz"
version = "0.1.0"
edition = "2021"
publish = false

[dependencies]
unicode-normalization = "=0.1.26"
ttf-parser = "0.20"
