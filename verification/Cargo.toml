[package]
name = "jobshell"
version = "0.1.0"
edition = "2021"
publish = false

[dependencies]
nix = { version = "0.29", features = ["signal", "process", "term"] }
once_cell = "1"
