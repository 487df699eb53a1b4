[package]
name = "clang_tidy"
version = "0.1.0"
edition = "2021"
publish = false

[dependencies]
async-trait = "=0.1.92"
log = "0.4"
