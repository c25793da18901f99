[package]
name = "korean_break"
version = "0.1.0"
edition = "2021"
publish = false

[dependencies]
lindera = { version = "=0.23.1", features = ["ko-dic", "ko-dic-compress"] }
once_cell = "=1.21.4"
