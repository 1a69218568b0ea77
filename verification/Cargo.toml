[package]
name = "lock_sync"
version = "0.1.0"
edition = "2021"
publish = false

[dependencies]
anstream = "0.6"
anyhow = "1"
itertools = "0.13"
miette = "7"
rustc-hash = "2"
