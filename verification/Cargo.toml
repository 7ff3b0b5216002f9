[package]
name = "window_buttons"
version = "0.1.0"
edition = "2021"
publish = false

[dependencies]
regex = "*"
zbus = "*"
async-channel = "*"
futures = "*"
serde = { version = "*", features = ["derive"] }
