[package]
name = "what_the_alias"
version = "0.1.0"
edition = "2021"
publish = false

[dependencies]
home = "0.5"
rand = "0.9"
regex = "1"
sysinfo = "*"
