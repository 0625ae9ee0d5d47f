[package]
name = "my_hdlc"
version = "0.1.0"
edition = "2021"
publish = false

[dependencies]
cordic = "0.1"
crc = "=3.4.0"
fixed = "=1.31.0"
postcard = { version = "=1.1.3", features = ["alloc"] }
serde = { version = "=1.0.229", features = ["derive"] }
