[package]
name = "commit-formatter"
version = "1.0.0-alpha"
edition = "2021"
publish = false

[dependencies]
clap = "4"
colored = "2"
inquire = "0.7"
regex = "1"
