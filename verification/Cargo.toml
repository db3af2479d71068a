[package]
name = "separable_transform"
version = "0.1.0"
edition = "2021"
publish = false

[dependencies]
image = { version = "*", default-features = false, features = ["gif", "jpeg", "png"] }
rayon = "*"
rustdct = "*"
