[package]
name = "socket_selector"
version = "0.1.0"
edition = "2021"
publish = false

[dependencies]
data-encoding = "=2.11.1"
httparse = "=1.10.1"
sha1 = "=0.11.0"
