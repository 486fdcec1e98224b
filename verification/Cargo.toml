[package]
name = "firmware"
version = "0.1.0"
edition = "2021"
publish = false

[dependencies]
avr-device = { version = "*", features = ["atmega328p"] }
