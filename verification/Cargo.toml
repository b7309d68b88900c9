[package]
name = "vbus_core"
version = "0.1.0"
edition = "2021"
publish = false

[dependencies]
bincode = "2"
os_pipe = "1"
selecting = "*"
termios = "0.3"
