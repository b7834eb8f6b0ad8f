[package]
name = "abootimg_oxide"
version = "0.1.0"
edition = "2021"
publish = false

[dependencies]
binrw = "0.14"
clap = { version = "4", features = ["derive"] }
shlex = "1.3"
