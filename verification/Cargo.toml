[package]
name = "blumbotron"
version = "0.1.0"
edition = "2021"
publish = false

[dependencies]
base64 = "0.22"
image = { version = "0.25", default-features = false, features = ["jpeg", "png"] }
nokhwa = "0.10"
tokio = { version = "1", features = ["fs"] }
lazy_static = "1"
