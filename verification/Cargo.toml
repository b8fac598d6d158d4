[package]
name = "ethereal_waves"
version = "0.1.0"
edition = "2021"
publish = false

[dependencies]
rand = "*"
url = "*"
chrono = "*"
serde = { version = "*", features = ["derive"] }
serde_json = "*"
xdg = "*"
