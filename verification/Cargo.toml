[package]
name = "vanity_id"
version = "0.1.0"
edition = "2021"
publish = false

[dependencies]
sha2 = "*"
base64 = "*"
clap = { version = "*", features = ["derive"] }
num_cpus = "*"
num-format = "*"
