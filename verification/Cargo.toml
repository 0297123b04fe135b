[package]
name = "grid"
version = "0.1.0"
edition = "2021"
publish = false

[dependencies]
ansi_term = "0.12"
ndarray = "0.15"
rand = "0.7"
termion = "1.5"
