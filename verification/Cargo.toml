[package]
name = "extension_fn"
version = "0.1.0"
edition = "2021"
publish = false

[dependencies]
case = "*"
proc-macro2 = "*"
quote = "*"
syn = { version = "*", features = ["full"] }
