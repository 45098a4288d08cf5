[package]
name = "blinkstick_rs"
version = "0.1.0"
edition = "2021"
publish = false

[dependencies]
hidapi = { version = "=2.6.7", default-features = false, features = ["linux-native-basic-udev"] }
rand = "=0.8.8"
spin_sleep = "=1.3.3"
