[package]
name = "sandbox_path"
version = "0.1.0"
edition = "2021"

[dev-dependencies]
tempfile = "3"
