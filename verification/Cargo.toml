[package]
name = "linenav"
version = "0.1.0"
edition = "2021"
publish = false

[dependencies]
ansi_term = "0.12"
chardet = "0.2"
clap = { version = "4", features = ["derive"] }
encoding_rs = "0.8"
humansize = "2"
num-format = "0.4"
prettytable-rs = "0.10"
walkdir = "2"
