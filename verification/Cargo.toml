[package]
name = "expr_script"
version = "0.1.0"
edition = "2021"
publish = false

[dependencies]
rpds = "*"
nom = "7"
clap = "2"
