[package]
name = "petal"
version = "0.1.0"
edition = "2021"
publish = false

[dependencies]
uuid = { version = "*", features = ["v4"] }
clap = { version = "*", features = ["derive"] }
glob = "*"
rustyline = "*"
miette = { version = "*", features = ["fancy"] }
owo-colors = "*"
