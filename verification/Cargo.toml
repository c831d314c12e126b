[package]
name = "silicon"
version = "0.1.0"
edition = "2021"
publish = false

[dependencies]
string-interner = { version = "=0.7.1", default-features = false }
