[package]
name = "razer-control-secureblue"
version = "0.1.0"
edition = "2021"
publish = false

[dependencies]
signal-hook = "*"
listenfd = "*"
hidapi = { version = "*", default-features = false, features = ["linux-native-basic-udev"] }
