[package]
name = "nvrc"
version = "0.1.0"
edition = "2021"
publish = false

[dependencies]
kernlog = "*"
libc = "*"
log = "*"
nix = { version = "*", features = ["fs", "reboot", "signal"] }
