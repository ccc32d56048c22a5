[package]
name = "tectonic_driver"
version = "0.1.0"
edition = "2021"
publish = false

[dependencies]
aho-corasick = "0.6"
clap = "2"
tectonic = ">=0.1.9, <0.1.12"
