[package]
name = "cors"
version = "0.1.0"
edition = "2021"
publish = false

[dependencies]
http = "1"
hyper = "1"
http-body-util = "0.1"
bytes = "1"
