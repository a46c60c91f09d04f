[package]
name = "kernel"
version = "0.1.0"
edition = "2021"
publish = false

[dependencies]
pc-keyboard = "=0.9.0"
spin = "=0.12.3"
x86_64 = { version = "=0.15.5", default-features = false, features = ["instructions"] }
pic8259 = "=0.11.0"
uart_16550 = "=0.8.1"
bootloader_api = "=0.11.17"
lazy_static = "=1.5.1"
