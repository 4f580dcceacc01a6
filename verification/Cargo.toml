[package]
name = "rdfio_hdt"
version = "0.1.0"
edition = "2021"
publish = false

[dependencies]
rome = "=0.1.3"
rand = "=0.8.8"
libc = "=0.2.191"
