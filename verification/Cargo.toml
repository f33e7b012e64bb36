[package]
name = "three_body_lang"
version = "0.1.0"
edition = "2021"
publish = false

[dependencies]
unicode-normalization = "*"
unicode-xid = "*"
rand = "0.8"
rustyline = "*"
reqwest = { version = "*", default-features = false, features = ["blocking"] }
