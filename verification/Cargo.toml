[package]
name = "locale_negotiator"
version = "0.1.0"
edition = "2021"
publish = false

[dependencies]
accept-language = "*"
unic-langid = "*"
