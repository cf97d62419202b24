[package]
name = "installer"
version = "0.1.0"
edition = "2021"
publish = false

[dependencies]
zip = { version = "=9.1.0", default-features = false, features = ["deflate"] }
sevenz-rust = "=0.6.1"
serde = { version = "1", features = ["derive"] }
