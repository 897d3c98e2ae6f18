[package]
name = "ptracer"
version = "0.1.0"
edition = "2021"
publish = false

[dependencies]
nix = "0.23"
twoway = "0.2"
spawn-ptrace = "0.1"
