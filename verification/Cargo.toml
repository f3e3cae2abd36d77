[package]
name = "firenvim"
version = "0.1.0"
edition = "2021"
publish = false

[dependencies]
serde = "1"
serde_json = "1"
byteorder = "1"
directories = "*"
winreg = "*"
