[package]
name = "lexer"
version = "0.1.0"
edition = "2021"
publish = false

[dependencies]
regex = "*"
colored = "*"
clap = { version = "*", features = ["derive"] }
tracing = "*"
tracing-subscriber = "*"
