[package]
name = "myexpl"
version = "0.1.0"
edition = "2021"
publish = false

[dependencies]
lrpar = "0.13"
lrlex = "0.13"
