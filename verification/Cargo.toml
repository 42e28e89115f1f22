[package]
name = "novelgrab"
version = "0.1.0"
edition = "2021"
publish = false

[dependencies]
kuchiki = "*"
isahc = "*"
rayon = "*"
toml = "*"
serde = { version = "*", features = ["derive"] }
