[package]
name = "usbhs_pipe"
version = "0.1.0"
edition = "2021"
publish = false

[dependencies]
ch32-metapac = { version = "*", features = ["ch32v307vct6"] }
critical-section = { version = "1", features = ["std"] }
embassy-usb-driver = "*"
