[package]
name = "cssinliner"
version = "0.1.0"
edition = "2021"
publish = false

[dependencies]
serde_json = "1"
kuchiki = "0.8"
html5ever = "0.25"
