[package]
name = "chocos"
version = "0.1.0"
edition = "2021"
publish = false

[dependencies]
cortex-m = "=0.7.10"
cortex-m-rt = "=0.7.7"
cstr_core = "=0.2.6"
stm32f1xx-hal = { version = "=0.8.0", features = ["stm32f103", "rt", "stm32-usbd", "high"] }
usb-device = "=0.2.9"
usbd-hid = "=0.6.2"
