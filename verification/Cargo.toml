[package]
name = "linfb"
version = "0.1.0"
edition = "2021"
publish = false

[dependencies]
xi-unicode = "=0.3.0"
rusttype = "=0.8.3"
font-loader = "=0.11.0"
memmap = "=0.7.0"
nix = { version = "=0.31.3", features = ["ioctl"] }
image = "=0.23.14"
