[package]
name = "csvlang"
version = "0.1.0"
edition = "2021"
publish = false

[dependencies]
clap = { version = "*", features = ["derive"] }
convert_case = "*"
hex = "*"
indoc = "*"
