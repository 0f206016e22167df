[package]
name = "adb_hooks"
version = "0.1.0"
edition = "2021"
publish = false

[dependencies]
rand = "0.8"
nix = "0.26"
libc = "0.2"
lazy_static = "1"
redhook = "*"
