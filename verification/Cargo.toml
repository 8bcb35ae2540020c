[package]
name = "resource_cache"
version = "0.1.0"
edition = "2021"
publish = false

[dependencies]
euclid = "0.22"
log = "0.4"
smallvec = "1"
