[package]
name = "gitchain"
version = "0.1.0"
edition = "2021"
publish = false

[dependencies]
rust-crypto = "0.2"
time = "0.1"
rayon = "1"
failure = "0.1"
structopt = "0.3"
git2 = { version = "*", default-features = false }
