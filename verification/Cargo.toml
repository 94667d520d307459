[package]
name = "morse_audio"
version = "0.1.0"
edition = "2021"
publish = false

[dependencies]
hound = "=3.5.1"
pico-args = "=0.5.0"
rodio = { version = "=0.20.1", default-features = false }
