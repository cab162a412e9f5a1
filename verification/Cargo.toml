[package]
name = "rrake"
version = "0.1.0"
edition = "2021"
publish = false

[dependencies]
clioptions = "*"
os_type = "*"
regex = "1"
