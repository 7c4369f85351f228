[package]
name = "cargo_wipe"
version = "0.1.0"
edition = "2021"
publish = false

[dependencies]
anyhow = "*"
clap = { version = "*", features = ["derive"] }
directories = "*"
num-format = "*"
number_prefix = "*"
regex = "*"
serde = { version = "*", features = ["derive"] }
serde_json = "*"
serde_regex = "*"
yansi = "*"
