[package]
name = "tn5250r"
version = "0.1.0"
edition = "2021"
publish = false

[dependencies]
uuid = { version = "=1.29.0", features = ["v4"] }
hostname = "=0.4.2"
once_cell = "=1.21.4"
base64 = "0.22"
