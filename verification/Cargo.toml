[package]
name = "buscador_duplicados"
version = "0.1.0"
edition = "2021"
publish = false

[dependencies]
md5 = "0.7"
clap = { version = "4", features = ["derive"] }
csv = "1"
sqlite = "*"
walkdir = "2"
