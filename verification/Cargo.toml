[package]
name = "kzon_httpd"
version = "0.1.0"
edition = "2021"
publish = false

[dependencies]
chrono = "*"
urldecode = "*"
mio = { version = "*", features = ["os-poll", "net"] }
