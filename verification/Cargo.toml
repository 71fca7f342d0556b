[package]
name = "tagref"
version = "0.1.0"
edition = "2021"
publish = false

[dependencies]
atty = "0.2"
clap = "2"
colored = "2"
ignore = "0.4"
regex = "1"
