[package]
name = "mdtolinkedin"
version = "0.1.0"
edition = "2021"
publish = false

[dependencies]
pulldown-cmark = { version = "0.10", default-features = false }
clap = { version = "4", features = ["derive"] }
syntect = { version = "5", default-features = false, features = ["default-fancy"] }
resvg = "0.35"
