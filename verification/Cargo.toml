[package]
name = "mwf"
version = "0.1.0"
edition = "2021"
publish = false

[dependencies]
futures = "0.1"
hyper = "0.11"
iron = "0.6"
mime_guess = "2"
pulldown-cmark = { version = "0.12", default-features = false, features = ["html"] }
