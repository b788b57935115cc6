[package]
name = "zz"
version = "0.1.0"
edition = "2021"
publish = false

[dependencies]
clap = "2"
flate2 = "1"
lz4 = "1"
snap = "0.2"
tar = "0.4"
unrar = "0.4"
zip = { version = "0.5", default-features = false, features = ["deflate"] }
