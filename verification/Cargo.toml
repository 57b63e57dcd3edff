[package]
name = "slang"
version = "0.1.0"
edition = "2021"
publish = false

[dependencies]
aho-corasick = "1"
once_cell = "1"
thiserror = "2"
tracing = "0.1"
