[package]
name = "stk500v2"
version = "0.1.0"
edition = "2021"
publish = false

[dependencies]
avrisp = "*"
serial = "0.4"
