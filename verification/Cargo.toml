[package]
name = "ssh_probe"
version = "0.1.0"
edition = "2021"
publish = false

[dependencies]
anyhow = "1"
console = "*"
dialoguer = "*"
dirs = "*"
