[package]
name = "search_blame"
version = "0.1.0"
edition = "2021"
publish = false

[dependencies]
grep = "=0.2.13"
git2 = { version = "=0.15.0", default-features = false }
walkdir = "=2.5.0"
indicatif = "=0.16.2"
console = "=0.16.6"
clap = { version = "=3.2.25", features = ["derive"] }
