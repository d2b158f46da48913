[package]
name = "tairvector"
version = "0.1.0"
edition = "2021"
publish = false

[dependencies]
redis = { version = "=0.23.5", default-features = false, features = ["tokio-comp"] }
ndarray = { version = "=0.15.6", features = ["rayon"] }
rayon = "=1.12.0"
