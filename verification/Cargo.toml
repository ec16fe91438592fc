[package]
name = "luix_kernel"
version = "0.1.0"
edition = "2021"
publish = false

[dependencies]
uuid = { version = "*", default-features = false }
limine = "*"
spin = "*"
