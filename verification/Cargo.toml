[package]
name = "og-image-worker"
version = "0.1.0"
edition = "2021"
publish = false

[dependencies]
worker = "=0.8.7"
