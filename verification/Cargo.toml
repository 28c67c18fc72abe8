[package]
name = "numcal"
version = "0.1.0"
edition = "2021"
publish = false

[dependencies]
rust_decimal = { version = "1", default-features = false }
heapless = "0.8"
embassy-time = { version = "*", features = ["std"] }
embassy-executor = { version = "*", features = ["arch-std", "executor-thread"] }
embassy-rp = { version = "*", features = ["rp2040", "time-driver"] }
embassy-sync = "*"
embassy-usb = "*"
embassy-usb-logger = "*"
embedded-graphics = "*"
embedded-hal-bus = "*"
display-interface = "*"
ssd1306 = "*"
static_cell = "*"
usbd-hid = "*"
portable-atomic = "*"
log = "*"
