[package]
name = "yi"
version = "0.1.0"
edition = "2021"
publish = false

[dependencies]
serde_json = "*"
md-5 = "*"
rand = "*"
quick-xml = "*"
reqwest = { version = "*", default-features = false, features = ["blocking"] }
clap = { version = "*", features = ["derive"] }
owo-colors = "*"
rodio = "*"
anyhow = "*"
