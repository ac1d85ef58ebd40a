[package]
name = "flappy_ferris"
version = "0.1.0"
edition = "2021"
publish = false

[dependencies]
rand = "0.8"
futures = "0.1"
log = "0.4"
quicksilver = { version = "0.3", default-features = false }
stdweb-logger = "0.1"
