[package]
name = "ratch"
version = "0.1.0"
edition = "2021"
publish = false

[dependencies]
regex = "1"
clap = "2"
duct = "*"
os_pipe = "*"
termion = "*"
