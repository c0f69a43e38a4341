[package]
name = "base16_builder"
version = "0.1.0"
edition = "2021"
publish = false

[dependencies]
clap = { version = "*", features = ["derive"] }
mustache = "*"
serde_yml = "*"
