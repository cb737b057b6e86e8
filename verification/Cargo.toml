[package]
name = "keron"
version = "0.1.0"
edition = "2021"
publish = false

[dependencies]
shellexpand = "*"
anyhow = "*"
clap = { version = "*", features = ["derive"] }
serde = { version = "*", features = ["derive"] }
indexmap = { version = "*", features = ["serde"] }
hcl-rs = "*"
walkdir = "*"
which = "*"
elevate = "*"
