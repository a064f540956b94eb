[package]
name = "stem"
version = "0.1.0"
edition = "2021"
publish = false

[dependencies]
docx-rs = "0.4"
zip = { version = "0.6", default-features = false, features = ["deflate"] }
thiserror = "1"
clap = { version = "4", features = ["derive"] }
anyhow = "1"
