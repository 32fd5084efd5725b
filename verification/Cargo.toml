[package]
name = "dzahui"
version = "0.1.0"
edition = "2021"
publish = false

[dependencies]
regex = "1"
log = "0.4"
chrono = "0.4"
cgmath = "0.18"
gl = "0.14"
glutin = "0.28"
ndarray = "0.15"
num = "0.4"
image = { version = "0.24", default-features = false, features = ["png"] }
