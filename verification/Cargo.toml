[package]
name = "shargs"
version = "0.1.0"
edition = "2021"
publish = false

[dependencies]
clap = { version = "=4.6.7", features = ["cargo", "string"] }
color-print = "=0.3.7"
knus = "=3.4.0"
miette = { version = "=7.6.0", features = ["fancy"] }
