[package]
name = "nkro_keyboard"
version = "0.1.0"
edition = "2021"
publish = false

[dependencies]
embedded-hal = "0.2"
cortex-m = "0.7"
critical-section = "1"
rp-pico = "*"
usb-device = "*"
usbd-hid = "*"
