[package]
name = "post_parser"
version = "0.1.0"
edition = "2021"
publish = false

[dependencies]
html-escape = "0.2"
linked-hash-map = "0.5"
regex = "1"
