[package]
name = "lamina"
version = "0.1.0"
edition = "2021"
publish = false

[dependencies]
semver = "1"
serde = { version = "1", features = ["derive"] }
serde_json = "1"
clap = { version = "4", features = ["derive"] }
git2 = "*"
comfy-table = "*"
time = { version = "0.3", features = ["formatting", "parsing"] }
filenamify = "*"
tempdir = "*"
