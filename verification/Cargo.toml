[package]
name = "coordinate_stats"
version = "0.1.0"
edition = "2021"
publish = false

[dependencies]
anyhow = "=1.0.104"
clap = { version = "=4.6.7", features = ["derive"] }
encoding_rs = "=0.8.42"
indicatif = { version = "=0.18.6", features = ["rayon"] }
rayon = "=1.12.0"
zip = { version = "=8.6.0", default-features = false, features = ["deflate"] }
