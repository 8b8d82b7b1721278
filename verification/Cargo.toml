[package]
name = "tsparser"
version = "0.1.0"
edition = "2021"
publish = false

[dependencies]
structopt = "*"
utf8-chars = "*"
