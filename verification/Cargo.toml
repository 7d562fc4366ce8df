[package]
name = "tdlib_rs"
version = "0.1.0"
edition = "2021"
publish = false

[dependencies]
convert_case = "*"
clap = { version = "4", features = ["derive"] }
ureq = "3"
