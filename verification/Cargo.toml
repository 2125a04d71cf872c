[package]
name = "tcp_packet"
version = "0.1.0"
edition = "2021"
publish = false

[dependencies]
prost = "*"
tokio = { version = "1", features = ["full"] }
