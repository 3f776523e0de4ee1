[package]
name = "lc3-vm"
version = "0.1.0"
edition = "2021"

[dependencies]
byteorder = "1"
termios = "0.3"
