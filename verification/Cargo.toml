[package]
name = "periscope"
version = "0.1.0"
edition = "2021"
publish = false

[dependencies]
regex = "1"
nucleo-matcher = "0.3"
tracing = "0.1"
