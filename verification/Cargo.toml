[package]
name = "rx_script"
version = "0.1.0"
edition = "2021"
publish = false

[dependencies]
rune = "*"
notify = "*"
log = "*"
