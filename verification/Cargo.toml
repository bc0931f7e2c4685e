[package]
name = "monty_hall"
version = "0.1.0"
edition = "2021"
publish = false

[dependencies]
rand = "*"
