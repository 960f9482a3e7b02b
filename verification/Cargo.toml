[package]
name = "struct_lint"
version = "0.1.0"
edition = "2021"
publish = false

[dependencies]
gimli = "*"
regex = "*"
object = "*"
clap = { version = "*", features = ["derive"] }
walkdir = "*"
