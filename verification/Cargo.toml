[package]
name = "mtb_terrain"
version = "0.1.0"
edition = "2021"
publish = false

[dependencies]
strsim = "0.10"
rand = "0.8"
grid = "*"
noise = "0.8"
libm = "0.2"
serde = { version = "1", features = ["derive"] }
serde_json = "1"
triangulate = "*"
