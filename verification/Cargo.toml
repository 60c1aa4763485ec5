[package]
name = "wam_compile"
version = "0.1.0"
edition = "2021"
publish = false

[dependencies]
prolog_parser = { version = "=0.8.68", default-features = false, features = ["num"] }
