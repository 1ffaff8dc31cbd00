[package]
name = "pplanner"
version = "0.1.0"
edition = "2021"
publish = false

[dependencies]
chrono = "0.4"
termios = "0.3"
termcolor = "1"
dirs = "*"
