[package]
name = "curs"
version = "0.1.0"
edition = "2021"
publish = false

[dependencies]
hyper = "0.10"
mime_guess = "2"
rand = "0.8"
serde = "1"
serde_json = "1"
url = "2"
