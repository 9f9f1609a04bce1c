[package]
name = "simplicityhl"
version = "0.1.0"
edition = "2021"
publish = false

[dependencies]
either = "=1.19.0"
pest = "=2.9.5"
simplicity-lang = "=0.9.0"
