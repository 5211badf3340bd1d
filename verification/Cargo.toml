[package]
name = "music_scan"
version = "0.1.0"
edition = "2021"
publish = false

[dependencies]
itertools = "=0.15.0"
lofty = "0.22.4"
serde = "=1.0.229"
serde_derive = "=1.0.229"
toml = "*"
walkdir = "=2.5.0"
