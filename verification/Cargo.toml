[package]
name = "convex_typegen"
version = "0.1.0"
edition = "2021"
publish = false
rust-version = "1.95"

[dependencies]
oxc = { version = ">=0.100, <0.118", features = ["serialize"] }
serde_json = "=1.0.154"
