[package]
name = "term_string"
version = "0.1.0"
edition = "2021"
publish = false

[dependencies]
term = "0.5"
isatty = "0.1"
