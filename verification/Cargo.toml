[package]
name = "ucsvgen"
version = "0.1.0"
edition = "2021"
publish = false

[dependencies]
anyhow = "1"
rand = "0.8"
rayon = "1"
strum_macros = "*"
thiserror = "1"
