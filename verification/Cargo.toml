[package]
name = "syntect"
version = "0.1.0"
edition = "2021"
publish = false

[dependencies]
walkdir = "2"
plist = { version = "1", default-features = false }
