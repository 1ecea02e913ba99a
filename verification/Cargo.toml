[package]
name = "pitch_detection"
version = "0.1.0"
edition = "2021"
publish = false

[dependencies]
rustfft = "3.0"
num-complex = "0.2"
num-traits = "0.2"
