[package]
name = "luwen"
version = "0.1.0"
edition = "2021"
publish = false

[dependencies]
bincode = "=1.3.3"
serde = { version = "=1.0.229", features = ["derive"] }
nix = "=0.26.4"
memmap2 = "=0.9.12"
