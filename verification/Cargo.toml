[package]
name = "retrvid"
version = "0.1.0"
edition = "2021"
publish = false

[dependencies]
arboard = { version = "2", default-features = false }
clap = { version = "3", features = ["derive"] }
dirs-next = "2"
itertools = "0.10"
toml = "0.5"
