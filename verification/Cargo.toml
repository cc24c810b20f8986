[package]
name = "bkt"
version = "0.1.0"
edition = "2021"
publish = false

[dependencies]
rust-s3 = "*"
num_cpus = "*"
tokio = { version = "*", features = ["rt-multi-thread", "macros", "fs"] }
dirs = "*"
walkdir = "*"
structopt = "*"
indicatif = "*"
