[package]
name = "dissonia"
version = "0.1.0"
edition = "2021"
publish = false

[dependencies]
mousiki = "0.2.1"
