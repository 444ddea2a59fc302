[package]
name = "nix-agent"
version = "0.1.0"
edition = "2021"
publish = false

[dependencies]
anyhow = "1"
rnix = "0.11"
rowan = "0.15"
