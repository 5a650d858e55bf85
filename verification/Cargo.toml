[package]
name = "geebee"
version = "0.1.0"
edition = "2021"
publish = false

[dependencies]
clap = "2"
piston_window = "*"
image = { version = "*", default-features = false }
thiserror = "1"
