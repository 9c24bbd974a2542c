[package]
name = "pt_commit"
version = "0.1.0"
edition = "2021"
publish = false

[dependencies]
anyhow = "1"
clap = "2"
git2 = { version = "*", default-features = false }
walkdir = "2"

[dev-dependencies]
tempfile = "3"
