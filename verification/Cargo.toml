[package]
name = "blinky"
version = "0.1.0"
edition = "2021"
publish = false

[dependencies]
embedded-hal = "1"
microbit-v2 = "*"
rtt-target = "*"
