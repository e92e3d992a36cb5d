[package]
name = "rust_ao"
version = "0.1.0"
edition = "2021"
publish = false

[dependencies]
log = "*"
rand = "*"
rand_distr = "*"
simple_logger = "*"
