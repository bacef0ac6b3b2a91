[package]
name = "http_response_parser"
version = "0.1.0"
edition = "2021"
publish = false

[dependencies]
bytes = "0.4"
futures = "0.1"
http = "0.1"
httparse = "1"
