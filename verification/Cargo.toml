[package]
name = "grep"
version = "0.1.0"
edition = "2021"
publish = false

[dependencies]
colored = "*"
glob = "*"
walkdir = "*"
