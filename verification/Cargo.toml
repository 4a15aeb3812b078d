[package]
name = "azul_css_parser"
version = "0.1.0"
edition = "2021"
publish = false

[dependencies]
simplecss = "0.1"
