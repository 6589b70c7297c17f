[package]
name = "chemfile"
version = "0.1.0"
edition = "2021"
publish = false

[dependencies]
annotate-snippets = "0.11"
