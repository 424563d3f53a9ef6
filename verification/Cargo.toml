[package]
name = "changeforge"
version = "0.1.0"
edition = "2021"
publish = false

[dependencies]
regex = "1"
toml = "*"
colored = "*"
fake = "*"
inquire = "*"
terminal_size = "*"
tokio = { version = "1", features = ["rt", "rt-multi-thread"] }
