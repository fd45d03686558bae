[package]
name = "ftml"
version = "0.1.0"
edition = "2021"
publish = false

[dependencies]
regex = "1"
latex2mathml = "*"
once_cell = "1"
slog = "2"
