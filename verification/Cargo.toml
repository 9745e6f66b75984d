[package]
name = "quoth"
version = "0.1.0"
edition = "2021"
publish = false

[dependencies]
regex = "1"
rust_decimal = "1"
safe-string = "*"
syn = { version = "2", features = ["full"] }
quote = "1"
proc-macro2 = "1"
