[package]
name = "cool"
version = "0.1.0"
edition = "2021"
publish = false

[dependencies]
nix = { version = "*", features = ["ptrace", "process", "signal"] }
addr2line = "*"
object = "*"
rustc-demangle = "*"
capstone = "*"
walkdir = "*"
