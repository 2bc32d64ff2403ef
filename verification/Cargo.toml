[package]
name = "moma"
version = "0.1.0"
edition = "2021"
publish = false

[dependencies]
time = "0.1"
rusqlite = "0.14"
gtk = "0.18"
