[package]
name = "roc_reporting"
version = "0.1.0"
edition = "2021"
publish = false

[dev-dependencies]
pretty = "=0.9.0"
