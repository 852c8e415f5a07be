[package]
name = "emux"
version = "0.1.0"
edition = "2021"
publish = false

[dependencies]
serde = { version = "=1.0.229", features = ["derive"] }
serde_json = "1"
crossterm = "=0.28.1"
libc = "=0.2.191"
regex = "=1.13.1"
