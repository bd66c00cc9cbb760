[package]
name = "rusl"
version = "0.1.0"
edition = "2021"
publish = false

[dependencies]
clap = { version = "*", features = ["derive"] }
nix = { version = "*", features = ["user"] }
termion = "*"
time-format = "*"
