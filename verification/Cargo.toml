[package]
name = "nif_viewer"
version = "0.1.0"
edition = "2021"
publish = false

[dependencies]
arc-slice = "*"
tes3 = "*"
zip = "*"
sevenz-rust2 = "*"
serde = { version = "1", features = ["derive"] }
serde_json = "1"
toml = "*"
serde_urlencoded = "*"
directories = "*"
