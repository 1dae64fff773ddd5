[package]
name = "fractalium"
version = "0.1.0"
edition = "2021"
publish = false

[dependencies]
glam = "=0.34.2"
rfd = { version = "=0.17.2", default-features = false, features = ["xdg-portal"] }
