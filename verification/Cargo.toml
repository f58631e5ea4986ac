[package]
name = "passacaglia"
version = "0.1.0"
edition = "2021"
publish = false

[dependencies]
rand = "0.8"
rand_xoshiro = "0.6"
midly = "0.5"
clap = { version = "4", features = ["derive"] }
