[package]
name = "fall_alarm"
version = "0.1.0"
edition = "2021"
publish = false

[dependencies]
lsm303agr = "0.2"
microbit-v2 = "0.13"
