[package]
name = "mdbook_chm"
version = "0.1.0"
edition = "2021"
publish = false

[dependencies]
comrak = "*"
regex = "*"
serde = { version = "*", features = ["derive"] }
serde_json = "*"
