[package]
name = "custom_elements"
version = "0.1.0"
edition = "2021"
publish = false

[dependencies]
web-dom = "=0.1.3"
