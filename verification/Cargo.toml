[package]
name = "svg2librepcb"
version = "0.1.0"
edition = "2021"
publish = false

[dependencies]
anyhow = "*"
chrono = "*"
clap = { version = "*", features = ["derive"] }
svg2polylines = "*"
uuid = { version = "*", features = ["v4"] }
