[package]
name = "advanced_inputs"
version = "0.1.0"
edition = "2021"
publish = false

[dependencies]
colored = "*"
rustyline = "*"
strum = "*"
strum_macros = "*"
