[package]
name = "globlin"
version = "0.2.3"
edition = "2021"
publish = false

[dependencies]
semver = "1"
serde = { version = "1", features = ["derive"] }
serde_json = "1"
tray-icon = "*"
tao = "*"
wry = "*"
