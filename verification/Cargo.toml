[package]
name = "videoferry"
version = "0.1.0"
edition = "2021"
publish = false

[dependencies]
arboard = { version = "3", default-features = false }
eframe = { version = "0.34", default-features = false, features = ["glow", "x11"] }
jiff = "0.2"
keepawake = "*"
notify-rust = "4"
rfd = "*"
serde = { version = "1", features = ["derive"] }
serde_json = "1"
