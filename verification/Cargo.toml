[package]
name = "deps_export"
version = "0.1.0"
edition = "2021"
publish = false

[dependencies]
pathdiff = "0.2"
serde_json = "1"
