[package]
name = "hledger_parser"
version = "0.1.0"
edition = "2021"
publish = false

[dependencies]
ariadne = "*"
clap = { version = "4", features = ["derive", "env"] }
