[package]
name = "shredder"
version = "0.1.0"
edition = "2021"
publish = false

[dependencies]
config = { version = "*", default-features = false, features = ["json"] }
getopts = "0.2"
serde = { version = "1", features = ["derive"] }
signal-hook = "0.3"
tun = "*"
