[package]
name = "viking_firmware"
version = "0.1.0"
edition = "2021"
publish = false

[dependencies]
usb = "0.3.0"
atsamd-hal = { version = "0.23.4", features = ["samd21j"] }
cortex-m = "0.7.10"
defmt = "1.2.0"
futures-util = { version = "0.3.34", default-features = false }
lilos = "1.3.0"
pin-project-lite = "0.2.17"
