[package]
name = "rtsp_server"
version = "0.1.0"
edition = "2021"
publish = false

[dependencies]
base64 = "0.22"
bytes = "1"
linked-hash-map = "0.5"
md5 = "0.7"
rand = "0.8"
