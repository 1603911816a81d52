[package]
name = "epievm"
version = "0.1.0"
edition = "2021"
publish = false

[dependencies]
chrono = "*"
uuid = { version = "*", features = ["v4"] }
num_cpus = "*"
clap = "*"
