[package]
name = "block_dispatch"
version = "0.1.0"
edition = "2021"
publish = false

[dependencies]
clap = { version = "=2.34.0", default-features = false }
isatty = "=0.1.9"
num_cpus = "=1.17.0"
threadpool = "=1.8.1"
