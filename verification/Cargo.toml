[package]
name = "charlieplex"
version = "0.1.0"
edition = "2021"
publish = false

[dependencies]
esp-idf-hal = "0.45.2"
esp-idf-svc = "0.51.0"
esp-idf-sys = "0.36.1"
