[package]
name = "rust_shell"
version = "0.1.0"
edition = "2021"
publish = false

[dependencies]
nix = { version = "=0.30.1", features = ["process", "fs", "signal"] }
rustyline = "=19.0.0"
