[package]
name = "custom_http_server"
version = "0.1.0"
edition = "2021"
publish = false

[dependencies]
httpdate = "1"
ctrlc = "3"
