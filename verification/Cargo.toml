[package]
name = "ezp"
version = "0.1.0"
edition = "2021"
publish = false

[dependencies]
byteorder = "1"
hex = "0.4"
itertools = "*"
rusb = "0.9"
clap = { version = "4", features = ["derive"] }
human_format = "1"
